use vstd::prelude::*;

use crate::attribute::{
    attr_list, attr_ok, attr_pairs, attr_val, lemma_dec_wf, lemma_opt_push_text,
    lemma_opt_push_values, lemma_plain_key, lemma_plain_value, lemma_quoted_wf_value,
    lemma_u64_read, opt_push, opt_val, pair_chunk, pair_text, pair_views, pairs_of, parse_attr,
    quoted_attr, quoted_value, values_for, wf_key, wf_value, AttrValue,
};
use crate::error::Error;
use crate::text::{
    chars_of, dec, is_digit, lemma_strip_quoted, plain_opt, push_quoted_string, push_str,
    push_u64, quoted, string_of,
};
use crate::types::{
    lemma_hdcp_level_roundtrip, lemma_resolution_roundtrip, HdcpLevel, ProtocolVersion,
    Resolution,
};

verus! {

/// The parts of the data of a stream, with its text fields taken by their characters.
pub struct StreamView {
    pub bandwidth: u64,
    pub average_bandwidth: Option<u64>,
    pub codecs: Option<Seq<char>>,
    pub resolution: Option<Resolution>,
    pub hdcp_level: Option<HdcpLevel>,
    pub video: Option<Seq<char>>,
}

/// The data that `#EXT-X-STREAM-INF` and `#EXT-X-I-FRAME-STREAM-INF` share
/// (RFC 8216, section 4.3.4.2).
#[derive(Debug, Clone, PartialEq, Eq, PartialOrd, Ord, Hash)]
pub struct StreamData {
    bandwidth: u64,
    average_bandwidth: Option<u64>,
    codecs: Option<String>,
    resolution: Option<Resolution>,
    hdcp_level: Option<HdcpLevel>,
    video: Option<String>,
}

/// The characters of an optional string.
pub open spec fn opt_view(s: Option<String>) -> Option<Seq<char>> {
    match s {
        Some(x) => Some(x@),
        None => None,
    }
}

impl View for StreamData {
    type V = StreamView;

    closed spec fn view(&self) -> StreamView {
        StreamView {
            bandwidth: self.bandwidth,
            average_bandwidth: self.average_bandwidth,
            codecs: opt_view(self.codecs),
            resolution: self.resolution,
            hdcp_level: self.hdcp_level,
            video: opt_view(self.video),
        }
    }
}

/// `,KEY=` and the text `t`, or nothing.
pub open spec fn opt_attr(key: Seq<char>, t: Option<Seq<char>>) -> Seq<char> {
    match t {
        Some(x) => seq![','] + key + seq!['='] + x,
        None => seq![],
    }
}

/// The decimal text of an optional number.
pub open spec fn opt_dec(o: Option<u64>) -> Option<Seq<char>> {
    match o {
        Some(n) => Some(dec(n as nat)),
        None => None,
    }
}

/// The quoted text of an optional string.
pub open spec fn opt_quoted(o: Option<Seq<char>>) -> Option<Seq<char>> {
    match o {
        Some(c) => Some(quoted(c)),
        None => None,
    }
}

/// The text of an optional resolution.
pub open spec fn opt_resolution(o: Option<Resolution>) -> Option<Seq<char>> {
    match o {
        Some(r) => Some(r.spec_to_string()),
        None => None,
    }
}

/// The name of an optional HDCP level.
pub open spec fn opt_hdcp(o: Option<HdcpLevel>) -> Option<Seq<char>> {
    match o {
        Some(h) => Some(h.name()),
        None => None,
    }
}

/// The attribute list of stream data.
pub open spec fn stream_text(d: StreamView) -> Seq<char> {
    "BANDWIDTH="@ + dec(d.bandwidth as nat) + opt_attr("AVERAGE-BANDWIDTH"@, opt_dec(d.average_bandwidth))
        + opt_attr("CODECS"@, opt_quoted(d.codecs)) + opt_attr(
        "RESOLUTION"@,
        opt_resolution(d.resolution),
    ) + opt_attr("HDCP-LEVEL"@, opt_hdcp(d.hdcp_level)) + opt_attr("VIDEO"@, opt_quoted(d.video))
}

/// Appends `,KEY=` and a number, if there is one.
pub fn write_opt_u64(out: &mut Vec<char>, key: &str, value: Option<u64>)
    ensures
        final(out)@ == old(out)@ + opt_attr(key@, opt_dec(value)),
{
    match value {
        Some(n) => {
            push_key(out, key);
            push_u64(out, n);
        },
        None => {},
    }
}

/// Appends `,KEY=` and a quoted string, if there is one.
pub fn write_opt_quoted(out: &mut Vec<char>, key: &str, value: &Option<String>)
    ensures
        final(out)@ == old(out)@ + opt_attr(key@, opt_quoted(opt_view(*value))),
{
    match value {
        Some(c) => {
            push_key(out, key);
            push_quoted_string(out, c);
        },
        None => {},
    }
}

/// The numbers, resolutions and levels of the attribute list `ps` can all be read.
pub open spec fn stream_attrs_ok(ps: Seq<(Seq<char>, Seq<char>)>) -> bool {
    &&& attr_ok::<u64>(ps, "BANDWIDTH"@)
    &&& attr_ok::<u64>(ps, "AVERAGE-BANDWIDTH"@)
    &&& attr_ok::<Resolution>(ps, "RESOLUTION"@)
    &&& attr_ok::<HdcpLevel>(ps, "HDCP-LEVEL"@)
}

/// The stream data that the attribute list `ps` describes; other attributes are
/// ignored, and a later attribute overrides an earlier one.
pub open spec fn stream_of_pairs(ps: Seq<(Seq<char>, Seq<char>)>) -> Option<StreamView> {
    if stream_attrs_ok(ps) {
        match attr_val::<u64>(ps, "BANDWIDTH"@) {
            Some(b) => Some(
                StreamView {
                    bandwidth: b,
                    average_bandwidth: attr_val::<u64>(ps, "AVERAGE-BANDWIDTH"@),
                    codecs: quoted_attr(ps, "CODECS"@),
                    resolution: attr_val::<Resolution>(ps, "RESOLUTION"@),
                    hdcp_level: attr_val::<HdcpLevel>(ps, "HDCP-LEVEL"@),
                    video: quoted_attr(ps, "VIDEO"@),
                },
            ),
            None => None,
        }
    } else {
        None
    }
}

/// Appends `,KEY=` to `out`.
pub fn push_key(out: &mut Vec<char>, key: &str)
    ensures
        final(out)@ == old(out)@ + seq![','] + key@ + seq!['='],
{
    out.push(',');
    push_str(out, key);
    out.push('=');
}

/// The pairs of stream data after its bandwidth, added to `base`.
pub open spec fn stream_rest_pairs(base: Seq<(Seq<char>, Seq<char>)>, d: StreamView) -> Seq<
    (Seq<char>, Seq<char>),
> {
    let p1 = opt_push(base, "AVERAGE-BANDWIDTH"@, opt_dec(d.average_bandwidth));
    let p2 = opt_push(p1, "CODECS"@, opt_quoted(d.codecs));
    let p3 = opt_push(p2, "RESOLUTION"@, opt_resolution(d.resolution));
    let p4 = opt_push(p3, "HDCP-LEVEL"@, opt_hdcp(d.hdcp_level));
    opt_push(p4, "VIDEO"@, opt_quoted(d.video))
}

/// `,KEY=` and the text `t` is what an optional pair adds to an attribute list.
pub proof fn lemma_opt_attr_chunk(key: Seq<char>, t: Option<Seq<char>>)
    ensures
        pair_chunk(key, t) == opt_attr(key, t),
{
    reveal(pair_chunk);
    if let Some(x) = t {
        assert(seq![','] + pair_text((key, x)) =~= opt_attr(key, t));
    }
}

/// The text of the pairs of stream data after its bandwidth.
pub proof fn lemma_stream_rest_text(base: Seq<(Seq<char>, Seq<char>)>, d: StreamView)
    requires
        base.len() > 0,
    ensures
        attr_list(stream_rest_pairs(base, d)) == attr_list(base) + opt_attr(
            "AVERAGE-BANDWIDTH"@,
            opt_dec(d.average_bandwidth),
        ) + opt_attr("CODECS"@, opt_quoted(d.codecs)) + opt_attr(
            "RESOLUTION"@,
            opt_resolution(d.resolution),
        ) + opt_attr("HDCP-LEVEL"@, opt_hdcp(d.hdcp_level)) + opt_attr(
            "VIDEO"@,
            opt_quoted(d.video),
        ),
        stream_rest_pairs(base, d).len() > 0,
{
    let p1 = opt_push(base, "AVERAGE-BANDWIDTH"@, opt_dec(d.average_bandwidth));
    let p2 = opt_push(p1, "CODECS"@, opt_quoted(d.codecs));
    let p3 = opt_push(p2, "RESOLUTION"@, opt_resolution(d.resolution));
    let p4 = opt_push(p3, "HDCP-LEVEL"@, opt_hdcp(d.hdcp_level));
    lemma_opt_push_text(base, "AVERAGE-BANDWIDTH"@, opt_dec(d.average_bandwidth));
    lemma_opt_push_text(p1, "CODECS"@, opt_quoted(d.codecs));
    lemma_opt_push_text(p2, "RESOLUTION"@, opt_resolution(d.resolution));
    lemma_opt_push_text(p3, "HDCP-LEVEL"@, opt_hdcp(d.hdcp_level));
    lemma_opt_push_text(p4, "VIDEO"@, opt_quoted(d.video));
    lemma_opt_attr_chunk("AVERAGE-BANDWIDTH"@, opt_dec(d.average_bandwidth));
    lemma_opt_attr_chunk("CODECS"@, opt_quoted(d.codecs));
    lemma_opt_attr_chunk("RESOLUTION"@, opt_resolution(d.resolution));
    lemma_opt_attr_chunk("HDCP-LEVEL"@, opt_hdcp(d.hdcp_level));
    lemma_opt_attr_chunk("VIDEO"@, opt_quoted(d.video));
}

/// The values of an attribute in the pairs of stream data after its bandwidth.
pub proof fn lemma_stream_rest_values(
    base: Seq<(Seq<char>, Seq<char>)>,
    d: StreamView,
    k: Seq<char>,
)
    ensures
        values_for(stream_rest_pairs(base, d), k) == values_for(base, k) + opt_val(
            "AVERAGE-BANDWIDTH"@ == k,
            opt_dec(d.average_bandwidth),
        ) + opt_val("CODECS"@ == k, opt_quoted(d.codecs)) + opt_val(
            "RESOLUTION"@ == k,
            opt_resolution(d.resolution),
        ) + opt_val("HDCP-LEVEL"@ == k, opt_hdcp(d.hdcp_level)) + opt_val(
            "VIDEO"@ == k,
            opt_quoted(d.video),
        ),
{
    let p1 = opt_push(base, "AVERAGE-BANDWIDTH"@, opt_dec(d.average_bandwidth));
    let p2 = opt_push(p1, "CODECS"@, opt_quoted(d.codecs));
    let p3 = opt_push(p2, "RESOLUTION"@, opt_resolution(d.resolution));
    let p4 = opt_push(p3, "HDCP-LEVEL"@, opt_hdcp(d.hdcp_level));
    lemma_opt_push_values(base, "AVERAGE-BANDWIDTH"@, opt_dec(d.average_bandwidth), k);
    lemma_opt_push_values(p1, "CODECS"@, opt_quoted(d.codecs), k);
    lemma_opt_push_values(p2, "RESOLUTION"@, opt_resolution(d.resolution), k);
    lemma_opt_push_values(p3, "HDCP-LEVEL"@, opt_hdcp(d.hdcp_level), k);
    lemma_opt_push_values(p4, "VIDEO"@, opt_quoted(d.video), k);
}

/// The names of the attributes of stream data.
pub proof fn lemma_stream_keys()
    ensures
        "BANDWIDTH"@.len() == 9 && "BANDWIDTH"@[0] == 'B',
        "AVERAGE-BANDWIDTH"@.len() == 17,
        "CODECS"@.len() == 6 && "CODECS"@[0] == 'C',
        "RESOLUTION"@.len() == 10 && "RESOLUTION"@[0] == 'R',
        "HDCP-LEVEL"@.len() == 10 && "HDCP-LEVEL"@[0] == 'H',
        "VIDEO"@.len() == 5 && "VIDEO"@[0] == 'V',
        wf_key("BANDWIDTH"@),
        wf_key("AVERAGE-BANDWIDTH"@),
        wf_key("CODECS"@),
        wf_key("RESOLUTION"@),
        wf_key("HDCP-LEVEL"@),
        wf_key("VIDEO"@),
{
    reveal_strlit("BANDWIDTH");
    reveal_strlit("AVERAGE-BANDWIDTH");
    reveal_strlit("CODECS");
    reveal_strlit("RESOLUTION");
    reveal_strlit("HDCP-LEVEL");
    reveal_strlit("VIDEO");
    lemma_plain_key("BANDWIDTH"@);
    lemma_plain_key("AVERAGE-BANDWIDTH"@);
    lemma_plain_key("CODECS"@);
    lemma_plain_key("RESOLUTION"@);
    lemma_plain_key("HDCP-LEVEL"@);
    lemma_plain_key("VIDEO"@);
}

/// The values of stream data read back as themselves.
pub proof fn lemma_stream_values_wf(d: StreamView)
    ensures
        opt_dec(d.average_bandwidth) matches Some(x) ==> wf_value(x),
        opt_quoted(d.codecs) matches Some(x) ==> wf_value(x),
        opt_resolution(d.resolution) matches Some(x) ==> wf_value(x),
        opt_hdcp(d.hdcp_level) matches Some(x) ==> wf_value(x),
        opt_quoted(d.video) matches Some(x) ==> wf_value(x),
        wf_value(dec(d.bandwidth as nat)),
{
    lemma_dec_wf(d.bandwidth as nat);
    if let Some(n) = d.average_bandwidth {
        lemma_dec_wf(n as nat);
    }
    if let Some(c) = d.codecs {
        lemma_quoted_wf_value(c);
    }
    if let Some(r) = d.resolution {
        let t = r.spec_to_string();
        let a = dec(r.width as nat);
        let b = dec(r.height as nat);
        lemma_dec_wf(r.width as nat);
        lemma_dec_wf(r.height as nat);
        assert forall|i: int| 0 <= i < t.len() implies t[i] != '"' && t[i] != ',' by {
            if i < a.len() {
                assert(t[i] == a[i]);
                assert(is_digit(a[i]));
            } else if i > a.len() {
                assert(t[i] == b[i - a.len() - 1]);
                assert(is_digit(b[i - a.len() - 1]));
            }
        }
        assert(t[0] == a[0] && is_digit(a[0]));
        assert(t.last() == b.last() && is_digit(b[b.len() - 1]));
        lemma_plain_value(t);
    }
    if let Some(h) = d.hdcp_level {
        reveal_strlit("TYPE-0");
        reveal_strlit("TYPE-1");
        reveal_strlit("NONE");
        lemma_plain_value(h.name());
    }
    if let Some(v) = d.video {
        lemma_quoted_wf_value(v);
    }
}

/// Stream data whose text reads back as itself: its codecs and video group hold no
/// double quote, line feed or carriage return.
pub open spec fn stream_reads_back(d: StreamView) -> bool {
    plain_opt(d.codecs) && plain_opt(d.video)
}

/// Reading the values of the attributes of stream data gives the stream data back.
pub proof fn lemma_stream_read(ps: Seq<(Seq<char>, Seq<char>)>, d: StreamView)
    requires
        stream_reads_back(d),
        values_for(ps, "BANDWIDTH"@) == seq![dec(d.bandwidth as nat)],
        values_for(ps, "AVERAGE-BANDWIDTH"@) == opt_val(true, opt_dec(d.average_bandwidth)),
        values_for(ps, "CODECS"@) == opt_val(true, opt_quoted(d.codecs)),
        values_for(ps, "RESOLUTION"@) == opt_val(true, opt_resolution(d.resolution)),
        values_for(ps, "HDCP-LEVEL"@) == opt_val(true, opt_hdcp(d.hdcp_level)),
        values_for(ps, "VIDEO"@) == opt_val(true, opt_quoted(d.video)),
    ensures
        stream_of_pairs(ps) == Some(d),
{
    lemma_u64_read(d.bandwidth);
    assert(values_for(ps, "BANDWIDTH"@)[0] == dec(d.bandwidth as nat));
    if let Some(n) = d.average_bandwidth {
        lemma_u64_read(n);
        assert(values_for(ps, "AVERAGE-BANDWIDTH"@)[0] == dec(n as nat));
    }
    if let Some(c) = d.codecs {
        lemma_strip_quoted(c);
        assert(values_for(ps, "CODECS"@).last() == quoted(c));
    }
    if let Some(r) = d.resolution {
        lemma_resolution_roundtrip(r);
        assert(values_for(ps, "RESOLUTION"@)[0] == r.spec_to_string());
    }
    if let Some(h) = d.hdcp_level {
        lemma_hdcp_level_roundtrip(h);
        assert(values_for(ps, "HDCP-LEVEL"@)[0] == h.name());
    }
    if let Some(v) = d.video {
        lemma_strip_quoted(v);
        assert(values_for(ps, "VIDEO"@).last() == quoted(v));
    }
    assert(stream_attrs_ok(ps));
}

impl StreamData {
    /// Stream data with the given bandwidth and nothing else.
    pub fn new(bandwidth: u64) -> (res: StreamData)
        ensures
            res@ == (StreamView {
                bandwidth,
                average_bandwidth: None,
                codecs: None,
                resolution: None,
                hdcp_level: None,
                video: None,
            }),
    {
        StreamData {
            bandwidth,
            average_bandwidth: None,
            codecs: None,
            resolution: None,
            hdcp_level: None,
            video: None,
        }
    }

    /// A builder for stream data.
    pub fn builder() -> (res: StreamDataBuilder)
        ensures
            res@ == (StreamBuilderView {
                bandwidth: None,
                average_bandwidth: None,
                codecs: None,
                resolution: None,
                hdcp_level: None,
                video: None,
            }),
    {
        StreamDataBuilder {
            bandwidth: None,
            average_bandwidth: None,
            codecs: None,
            resolution: None,
            hdcp_level: None,
            video: None,
        }
    }

    /// The peak bandwidth in bits per second.
    pub fn bandwidth(&self) -> (res: u64)
        ensures
            res == self@.bandwidth,
    {
        self.bandwidth
    }

    /// Sets the peak bandwidth.
    pub fn set_bandwidth(&mut self, value: u64)
        ensures
            final(self)@ == (StreamView { bandwidth: value, ..old(self)@ }),
    {
        self.bandwidth = value;
    }

    /// The average bandwidth in bits per second.
    pub fn average_bandwidth(&self) -> (res: Option<u64>)
        ensures
            res == self@.average_bandwidth,
    {
        self.average_bandwidth
    }

    /// Sets the average bandwidth.
    pub fn set_average_bandwidth(&mut self, value: Option<u64>)
        ensures
            final(self)@ == (StreamView { average_bandwidth: value, ..old(self)@ }),
    {
        self.average_bandwidth = value;
    }

    /// The codecs of the stream.
    pub fn codecs(&self) -> (res: Option<&String>)
        ensures
            opt_view(match res {
                Some(s) => Some(*s),
                None => None,
            }) == self@.codecs,
    {
        self.codecs.as_ref()
    }

    /// Sets the codecs of the stream.
    pub fn set_codecs(&mut self, value: Option<&str>)
        ensures
            final(self)@ == (StreamView {
                codecs: match value {
                    Some(v) => Some(v@),
                    None => None,
                },
                ..old(self)@
            }),
    {
        self.codecs = match value {
            Some(v) => Some(String::from_str(v)),
            None => None,
        };
    }

    /// The resolution of the stream.
    pub fn resolution(&self) -> (res: Option<Resolution>)
        ensures
            res == self@.resolution,
    {
        self.resolution
    }

    /// Sets the resolution of the stream.
    pub fn set_resolution(&mut self, width: usize, height: usize)
        ensures
            final(self)@ == (StreamView {
                resolution: Some(Resolution { width, height }),
                ..old(self)@
            }),
    {
        self.resolution = Some(Resolution::new(width, height));
    }

    /// The HDCP level of the stream.
    pub fn hdcp_level(&self) -> (res: Option<HdcpLevel>)
        ensures
            res == self@.hdcp_level,
    {
        self.hdcp_level
    }

    /// Sets the HDCP level of the stream.
    pub fn set_hdcp_level(&mut self, value: Option<HdcpLevel>)
        ensures
            final(self)@ == (StreamView { hdcp_level: value, ..old(self)@ }),
    {
        self.hdcp_level = value;
    }

    /// The group id of the video renditions of the stream.
    pub fn video(&self) -> (res: Option<&String>)
        ensures
            opt_view(match res {
                Some(s) => Some(*s),
                None => None,
            }) == self@.video,
    {
        self.video.as_ref()
    }

    /// Sets the group id of the video renditions of the stream.
    pub fn set_video(&mut self, value: Option<&str>)
        ensures
            final(self)@ == (StreamView {
                video: match value {
                    Some(v) => Some(v@),
                    None => None,
                },
                ..old(self)@
            }),
    {
        self.video = match value {
            Some(v) => Some(String::from_str(v)),
            None => None,
        };
    }

    /// Stream data needs protocol version 1.
    pub fn required_version(&self) -> (res: ProtocolVersion)
        ensures
            res == ProtocolVersion::V1,
    {
        ProtocolVersion::V1
    }

    /// The `VIDEO` attribute was introduced with protocol version 4.
    pub fn introduced_version(&self) -> (res: ProtocolVersion)
        ensures
            res == (if self@.video is Some {
                ProtocolVersion::V4
            } else {
                ProtocolVersion::V1
            }),
    {
        if self.video.is_some() {
            ProtocolVersion::V4
        } else {
            ProtocolVersion::V1
        }
    }

    /// The attribute list of the stream data.
    pub open spec fn spec_to_string(self) -> Seq<char> {
        stream_text(self@)
    }

    /// Appends the attribute list of the stream data to `out`.
    #[verifier::rlimit(30)]
    pub fn write(&self, out: &mut Vec<char>)
        ensures
            final(out)@ == old(out)@ + self.spec_to_string(),
    {
        let ghost start = out@;
        let ghost d = self@;
        let ghost q0 = "BANDWIDTH="@ + dec(d.bandwidth as nat);
        let ghost q1 = q0 + opt_attr("AVERAGE-BANDWIDTH"@, opt_dec(d.average_bandwidth));
        let ghost q2 = q1 + opt_attr("CODECS"@, opt_quoted(d.codecs));
        let ghost q3 = q2 + opt_attr("RESOLUTION"@, opt_resolution(d.resolution));
        let ghost q4 = q3 + opt_attr("HDCP-LEVEL"@, opt_hdcp(d.hdcp_level));
        let ghost q5 = q4 + opt_attr("VIDEO"@, opt_quoted(d.video));
        push_str(out, "BANDWIDTH=");
        push_u64(out, self.bandwidth);
        assert(out@ =~= start + q0);
        write_opt_u64(out, "AVERAGE-BANDWIDTH", self.average_bandwidth);
        assert(out@ =~= start + q1);
        write_opt_quoted(out, "CODECS", &self.codecs);
        assert(out@ =~= start + q2);
        let ghost p2 = out@;
        match &self.resolution {
            Some(r) => {
                push_key(out, "RESOLUTION");
                r.write(out);
            },
            None => {},
        }
        assert(out@ =~= p2 + opt_attr("RESOLUTION"@, opt_resolution(d.resolution)));
        assert(out@ =~= start + q3);
        let ghost p3 = out@;
        match &self.hdcp_level {
            Some(h) => {
                push_key(out, "HDCP-LEVEL");
                h.write(out);
            },
            None => {},
        }
        assert(out@ =~= p3 + opt_attr("HDCP-LEVEL"@, opt_hdcp(d.hdcp_level)));
        assert(out@ =~= start + q4);
        write_opt_quoted(out, "VIDEO", &self.video);
        assert(out@ =~= start + q5);
    }

    /// The attribute list of the stream data.
    pub fn to_string(&self) -> (res: String)
        ensures
            res@ == self.spec_to_string(),
    {
        let mut out = Vec::new();
        self.write(&mut out);
        string_of(&out)
    }

    /// Reads stream data from the key/value pairs of an attribute list.
    pub fn from_pairs(pairs: &Vec<(Vec<char>, Vec<char>)>) -> (res: Result<StreamData, Error>)
        ensures
            res is Ok <==> stream_of_pairs(pair_views(pairs@)) is Some,
            res matches Ok(d) ==> stream_of_pairs(pair_views(pairs@)) == Some(d@),
            stream_attrs_ok(pair_views(pairs@)) && attr_val::<u64>(
                pair_views(pairs@),
                "BANDWIDTH"@,
            ) is None ==> (res matches Err(Error::MissingValue { value }) && value@
                == "BANDWIDTH"@),
    {
        let bandwidth = parse_attr::<u64>(pairs, "BANDWIDTH")?;
        let average_bandwidth = parse_attr::<u64>(pairs, "AVERAGE-BANDWIDTH")?;
        let resolution = parse_attr::<Resolution>(pairs, "RESOLUTION")?;
        let hdcp_level = parse_attr::<HdcpLevel>(pairs, "HDCP-LEVEL")?;
        let codecs = quoted_value(pairs, "CODECS");
        let video = quoted_value(pairs, "VIDEO");
        let bandwidth = match bandwidth {
            Some(b) => b,
            None => {
                return Err(Error::MissingValue { value: String::from_str("BANDWIDTH") });
            },
        };
        Ok(StreamData { bandwidth, average_bandwidth, codecs, resolution, hdcp_level, video })
    }

    /// Reads stream data from an attribute list.
    pub fn parse_chars(v: &Vec<char>) -> (res: Result<StreamData, Error>)
        ensures
            res is Ok <==> stream_of_pairs(attr_pairs(v@)) is Some,
            res matches Ok(d) ==> stream_of_pairs(attr_pairs(v@)) == Some(d@),
    {
        let pairs = pairs_of(v);
        Self::from_pairs(&pairs)
    }

    /// Reads stream data from an attribute list.
    pub fn try_from(input: &str) -> (res: Result<StreamData, Error>)
        ensures
            res is Ok <==> stream_of_pairs(attr_pairs(input@)) is Some,
            res matches Ok(d) ==> stream_of_pairs(attr_pairs(input@)) == Some(d@),
    {
        Self::parse_chars(&chars_of(input))
    }
}

/// The parts of a stream data builder, with its text fields taken by their characters.
pub struct StreamBuilderView {
    pub bandwidth: Option<u64>,
    pub average_bandwidth: Option<u64>,
    pub codecs: Option<Seq<char>>,
    pub resolution: Option<Resolution>,
    pub hdcp_level: Option<HdcpLevel>,
    pub video: Option<Seq<char>>,
}

/// A builder for [`StreamData`].
#[derive(Debug, Clone, PartialEq, Eq)]
pub struct StreamDataBuilder {
    bandwidth: Option<u64>,
    average_bandwidth: Option<u64>,
    codecs: Option<String>,
    resolution: Option<Resolution>,
    hdcp_level: Option<HdcpLevel>,
    video: Option<String>,
}

impl View for StreamDataBuilder {
    type V = StreamBuilderView;

    closed spec fn view(&self) -> StreamBuilderView {
        StreamBuilderView {
            bandwidth: self.bandwidth,
            average_bandwidth: self.average_bandwidth,
            codecs: opt_view(self.codecs),
            resolution: self.resolution,
            hdcp_level: self.hdcp_level,
            video: opt_view(self.video),
        }
    }
}

impl StreamDataBuilder {
    /// Sets the peak bandwidth.
    pub fn bandwidth(self, value: u64) -> (res: StreamDataBuilder)
        ensures
            res@ == (StreamBuilderView { bandwidth: Some(value), ..self@ }),
    {
        StreamDataBuilder { bandwidth: Some(value), ..self }
    }

    /// Sets the average bandwidth.
    pub fn average_bandwidth(self, value: u64) -> (res: StreamDataBuilder)
        ensures
            res@ == (StreamBuilderView { average_bandwidth: Some(value), ..self@ }),
    {
        StreamDataBuilder { average_bandwidth: Some(value), ..self }
    }

    /// Sets the codecs.
    pub fn codecs(self, value: &str) -> (res: StreamDataBuilder)
        ensures
            res@ == (StreamBuilderView { codecs: Some(value@), ..self@ }),
    {
        StreamDataBuilder { codecs: Some(String::from_str(value)), ..self }
    }

    /// Sets the resolution.
    pub fn resolution(self, width: usize, height: usize) -> (res: StreamDataBuilder)
        ensures
            res@ == (StreamBuilderView {
                resolution: Some(Resolution { width, height }),
                ..self@
            }),
    {
        StreamDataBuilder { resolution: Some(Resolution::new(width, height)), ..self }
    }

    /// Sets the HDCP level.
    pub fn hdcp_level(self, value: HdcpLevel) -> (res: StreamDataBuilder)
        ensures
            res@ == (StreamBuilderView { hdcp_level: Some(value), ..self@ }),
    {
        StreamDataBuilder { hdcp_level: Some(value), ..self }
    }

    /// Sets the group id of the video renditions.
    pub fn video(self, value: &str) -> (res: StreamDataBuilder)
        ensures
            res@ == (StreamBuilderView { video: Some(value@), ..self@ }),
    {
        StreamDataBuilder { video: Some(String::from_str(value)), ..self }
    }

    /// Builds the stream data: the bandwidth is required.
    pub fn build(self) -> (res: Result<StreamData, String>)
        ensures
            self@.bandwidth is None ==> (res matches Err(m) && m@
                == "`bandwidth` must be initialized"@),
            self@.bandwidth matches Some(b) ==> (res matches Ok(d) && d@ == (StreamView {
                bandwidth: b,
                average_bandwidth: self@.average_bandwidth,
                codecs: self@.codecs,
                resolution: self@.resolution,
                hdcp_level: self@.hdcp_level,
                video: self@.video,
            })),
    {
        match self.bandwidth {
            Some(b) => Ok(
                StreamData {
                    bandwidth: b,
                    average_bandwidth: self.average_bandwidth,
                    codecs: self.codecs,
                    resolution: self.resolution,
                    hdcp_level: self.hdcp_level,
                    video: self.video,
                },
            ),
            None => Err(String::from_str("`bandwidth` must be initialized")),
        }
    }
}

} // verus!
