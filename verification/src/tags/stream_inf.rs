use vstd::prelude::*;

use crate::attribute::{
    attr_list, attr_ok, attr_pairs, attr_val, char_views, last_for, lemma_attr_list_push,
    lemma_attr_roundtrip, lemma_dec_wf, lemma_opt_push_text, lemma_opt_push_values, lemma_opt_push_wf,
    lemma_plain_key,
    lemma_quoted_wf_value, pair_chunk,
    lemma_values_for_push, lemma_wf_pairs_push, opt_push, opt_val, pair_views, pairs_of,
    parse_attr, quoted_attr, quoted_value, values_for, values_of, wf_key, wf_pairs, wf_value,
    lemma_plain_value, AttrValue,
};
use crate::error::Error;
use crate::tags::{opt_quoted_attr, ExtXMedia, MediaView};
use crate::text::{
    after_tag, chars_of, dec, expect_tag, find_char, is_ws, lemma_after_tag, lemma_find_char,
    lemma_find_char_at,
    fixed_digits, is_digit, lemma_digits_no_lf, lemma_fixed_digits_bound, lemma_no_lf_concat,
    lemma_quoted_no_lf,
    lemma_trim_id, no_lf, plain_opt, trim,
    lemma_strip_quoted, lemma_trim_keeps_ends, position, push_chars, push_quoted_string, push_str,
    push_string, quoted, slice_of, string_of, strip_quotes, strip_tag,
};
use crate::traits::RequiredVersion;
use crate::types::{
    lemma_fixed3_roundtrip, lemma_ufloat_view, rounded_millis, lemma_opt_attr_chunk, lemma_stream_keys, lemma_stream_read, lemma_stream_rest_text,
    lemma_stream_rest_values, lemma_stream_values_wf, opt_attr, opt_dec, opt_hdcp, opt_quoted,
    opt_resolution, stream_attrs_ok, stream_reads_back, stream_rest_pairs,
    closed_captions_of_text, closed_captions_text, opt_view, stream_of_pairs, stream_text,
    ClosedCaptions, HdcpLevel, MediaType, ProtocolVersion, StreamData, StreamDataBuilder,
    StreamView, UFloat,
};

verus! {

/// The first line of `s` (`str::lines`): up to the first line feed, without a
/// carriage return at its end.
pub open spec fn line_of(s: Seq<char>) -> Seq<char> {
    let p = match find_char(s, '\n') {
        Some(k) => s.take(k),
        None => s,
    };
    if p.len() > 0 && p.last() == '\r' {
        p.drop_last()
    } else {
        p
    }
}

/// What follows the first line feed of `s`, if there is one.
pub open spec fn after_line(s: Seq<char>) -> Option<Seq<char>> {
    match find_char(s, '\n') {
        Some(k) => Some(s.skip(k + 1)),
        None => None,
    }
}

/// The second line of `s`, if `s` has one.
pub open spec fn second_line(s: Seq<char>) -> Option<Seq<char>> {
    match after_line(s) {
        Some(r) => if r.len() > 0 {
            Some(line_of(r))
        } else {
            None
        },
        None => None,
    }
}

/// The first line of `v`.
pub fn first_line(v: &Vec<char>) -> (res: Vec<char>)
    ensures
        res@ == line_of(v@),
{
    assert(v@.subrange(0, v.len() as int) == v@);
    let end = match position(v, 0, v.len(), '\n') {
        Some(k) => {
            proof {
                lemma_find_char(v@, '\n');
            }
            k
        },
        None => v.len(),
    };
    if end > 0 && v[end - 1] == '\r' {
        let r = slice_of(v, 0, end - 1);
        assert(r@ == v@.take(end as int).drop_last());
        r
    } else {
        let r = slice_of(v, 0, end);
        assert(r@ == v@.take(end as int));
        r
    }
}

/// What follows the first line feed of `v`.
pub fn rest_after_line(v: &Vec<char>) -> (res: Option<Vec<char>>)
    ensures
        match after_line(v@) {
            Some(r) => res matches Some(x) && x@ == r,
            None => res is None,
        },
{
    assert(v@.subrange(0, v.len() as int) == v@);
    match position(v, 0, v.len(), '\n') {
        Some(k) => {
            proof {
                lemma_find_char(v@, '\n');
            }
            let r = slice_of(v, k + 1, v.len());
            assert(r@ == v@.skip(k + 1));
            Some(r)
        },
        None => None,
    }
}

/// The second line of `v`, if it has one.
pub fn line_after(v: &Vec<char>) -> (res: Option<Vec<char>>)
    ensures
        match second_line(v@) {
            Some(r) => res matches Some(x) && x@ == r,
            None => res is None,
        },
{
    match rest_after_line(v) {
        Some(r) => if r.len() > 0 {
            Some(first_line(&r))
        } else {
            None
        },
        None => None,
    }
}

/// The parts of an `#EXT-X-STREAM-INF` tag, with its text fields taken by their
/// characters.
pub struct StreamInfView {
    pub uri: Seq<char>,
    pub frame_rate: Option<UFloat>,
    pub audio: Option<Seq<char>>,
    pub subtitles: Option<Seq<char>>,
    pub closed_captions: Option<Option<Seq<char>>>,
    pub stream: StreamView,
}

/// The view of optional closed captions.
pub open spec fn opt_cc(c: Option<ClosedCaptions>) -> Option<Option<Seq<char>>> {
    match c {
        Some(x) => Some(x@),
        None => None,
    }
}

/// The attributes that follow the stream data of an `#EXT-X-STREAM-INF` tag.
pub open spec fn extra_text(
    frame_rate: Option<UFloat>,
    audio: Option<Seq<char>>,
    subtitles: Option<Seq<char>>,
    closed_captions: Option<Option<Seq<char>>>,
) -> Seq<char> {
    (match frame_rate {
        Some(f) => ",FRAME-RATE="@ + f.spec_to_fixed3(),
        None => seq![],
    }) + opt_quoted_attr("AUDIO"@, audio) + opt_quoted_attr("SUBTITLES"@, subtitles) + (
    match closed_captions {
        Some(c) => ",CLOSED-CAPTIONS="@ + closed_captions_text(c),
        None => seq![],
    })
}

/// The attributes of an `#EXT-X-STREAM-INF` tag after its stream data.
pub open spec fn stream_inf_extra(i: StreamInfView) -> Seq<char> {
    extra_text(i.frame_rate, i.audio, i.subtitles, i.closed_captions)
}

/// The text of an `#EXT-X-STREAM-INF` tag and the line of its location.
pub open spec fn stream_inf_text(i: StreamInfView) -> Seq<char> {
    "#EXT-X-STREAM-INF:"@ + stream_text(i.stream) + stream_inf_extra(i) + seq!['\n'] + i.uri
}

/// The stream that the attribute list `ps` and the location `uri` describe.
pub open spec fn stream_inf_of_pairs(ps: Seq<(Seq<char>, Seq<char>)>, uri: Seq<char>) -> Option<
    StreamInfView,
> {
    if attr_ok::<UFloat>(ps, "FRAME-RATE"@) {
        match stream_of_pairs(ps) {
            Some(d) => Some(
                StreamInfView {
                    uri,
                    frame_rate: attr_val::<UFloat>(ps, "FRAME-RATE"@),
                    audio: quoted_attr(ps, "AUDIO"@),
                    subtitles: quoted_attr(ps, "SUBTITLES"@),
                    closed_captions: match last_for(ps, "CLOSED-CAPTIONS"@) {
                        Some(x) => Some(closed_captions_of_text(x)),
                        None => None,
                    },
                    stream: d,
                },
            ),
            None => None,
        }
    } else {
        None
    }
}

/// The `#EXT-X-STREAM-INF` tag and its location line: a variant stream (RFC 8216,
/// section 4.3.4.2).
#[derive(Debug, Clone, PartialEq, Eq, PartialOrd, Ord, Hash)]
pub struct ExtXStreamInf {
    uri: String,
    frame_rate: Option<UFloat>,
    audio: Option<String>,
    subtitles: Option<String>,
    closed_captions: Option<ClosedCaptions>,
    stream_data: StreamData,
}

impl View for ExtXStreamInf {
    type V = StreamInfView;

    closed spec fn view(&self) -> StreamInfView {
        StreamInfView {
            uri: self.uri@,
            frame_rate: self.frame_rate,
            audio: opt_view(self.audio),
            subtitles: opt_view(self.subtitles),
            closed_captions: opt_cc(self.closed_captions),
            stream: self.stream_data@,
        }
    }
}

/// Reads the closed captions of the last `CLOSED-CAPTIONS` value.
pub fn closed_captions_value(pairs: &Vec<(Vec<char>, Vec<char>)>) -> (res: Option<ClosedCaptions>)
    ensures
        opt_cc(res) == match last_for(pair_views(pairs@), "CLOSED-CAPTIONS"@) {
            Some(x) => Some(closed_captions_of_text(x)),
            None => None,
        },
{
    let vals = values_of(pairs, "CLOSED-CAPTIONS");
    if vals.len() == 0 {
        None
    } else {
        let last = vals.len() - 1;
        assert(char_views(vals@)[last as int] == vals@[last as int]@);
        Some(ClosedCaptions::parse_chars(&vals[last]))
    }
}

/// Appends the attributes that follow the stream data.
pub fn write_stream_inf_extra(
    out: &mut Vec<char>,
    frame_rate: Option<UFloat>,
    audio: &Option<String>,
    subtitles: &Option<String>,
    closed_captions: &Option<ClosedCaptions>,
)
    ensures
        final(out)@ == old(out)@ + extra_text(
            frame_rate,
            opt_view(*audio),
            opt_view(*subtitles),
            opt_cc(*closed_captions),
        ),
{
    let ghost start = out@;
    match frame_rate {
        Some(f) => {
            push_str(out, ",FRAME-RATE=");
            f.write_fixed3(out);
        },
        None => {},
    }
    let ghost a = out@;
    crate::tags::write_quoted_attr(out, "AUDIO", audio);
    crate::tags::write_quoted_attr(out, "SUBTITLES", subtitles);
    let ghost b = out@;
    match closed_captions {
        Some(c) => {
            push_str(out, ",CLOSED-CAPTIONS=");
            c.write(out);
        },
        None => {},
    }
    assert(out@ =~= start + extra_text(
        frame_rate,
        opt_view(*audio),
        opt_view(*subtitles),
        opt_cc(*closed_captions),
    ));
}

impl ExtXStreamInf {
    /// A variant stream at `uri` with the given bandwidth and nothing else.
    pub fn new(uri: &str, bandwidth: u64) -> (res: ExtXStreamInf)
        ensures
            res@.uri == uri@,
            res@.frame_rate is None,
            res@.audio is None,
            res@.subtitles is None,
            res@.closed_captions is None,
            res@.stream == (StreamView {
                bandwidth,
                average_bandwidth: None,
                codecs: None,
                resolution: None,
                hdcp_level: None,
                video: None,
            }),
    {
        ExtXStreamInf {
            uri: String::from_str(uri),
            frame_rate: None,
            audio: None,
            subtitles: None,
            closed_captions: None,
            stream_data: StreamData::new(bandwidth),
        }
    }

    /// A builder for a variant stream.
    pub fn builder() -> (res: ExtXStreamInfBuilder)
        ensures
            res.uri is None && res.frame_rate is None && res.audio is None && res.subtitles is None
                && res.closed_captions is None,
    {
        ExtXStreamInfBuilder {
            uri: None,
            frame_rate: None,
            audio: None,
            subtitles: None,
            closed_captions: None,
            stream_data: StreamData::builder(),
        }
    }

    /// The parts of the tag.
    pub fn into_parts(self) -> (res: (
        String,
        Option<UFloat>,
        Option<String>,
        Option<String>,
        Option<ClosedCaptions>,
        StreamData,
    ))
        ensures
            res.0@ == self@.uri,
            res.1 == self@.frame_rate,
            opt_view(res.2) == self@.audio,
            opt_view(res.3) == self@.subtitles,
            opt_cc(res.4) == self@.closed_captions,
            res.5@ == self@.stream,
    {
        (self.uri, self.frame_rate, self.audio, self.subtitles, self.closed_captions, self.stream_data)
    }

    /// The location of the media playlist of the stream.
    pub fn uri(&self) -> (res: &String)
        ensures
            res@ == self@.uri,
    {
        &self.uri
    }

    /// Sets the location of the media playlist of the stream.
    pub fn set_uri(&mut self, value: &str)
        ensures
            final(self)@ == (StreamInfView { uri: value@, ..old(self)@ }),
    {
        self.uri = String::from_str(value);
    }

    /// The maximum frame rate of the stream.
    pub fn frame_rate(&self) -> (res: Option<UFloat>)
        ensures
            res == self@.frame_rate,
    {
        self.frame_rate
    }

    /// Sets the maximum frame rate of the stream (a decimal number, never negative).
    pub fn set_frame_rate(&mut self, value: Option<UFloat>)
        ensures
            final(self)@ == (StreamInfView { frame_rate: value, ..old(self)@ }),
    {
        self.frame_rate = value;
    }

    /// The group id of the audio renditions of the stream.
    pub fn audio(&self) -> (res: &Option<String>)
        ensures
            opt_view(*res) == self@.audio,
    {
        &self.audio
    }

    /// The group id of the subtitle renditions of the stream.
    pub fn subtitles(&self) -> (res: &Option<String>)
        ensures
            opt_view(*res) == self@.subtitles,
    {
        &self.subtitles
    }

    /// The closed captions of the stream.
    pub fn closed_captions(&self) -> (res: &Option<ClosedCaptions>)
        ensures
            opt_cc(*res) == self@.closed_captions,
    {
        &self.closed_captions
    }

    /// The data of the stream.
    pub fn stream_data(&self) -> (res: &StreamData)
        ensures
            res@ == self@.stream,
    {
        &self.stream_data
    }

    /// The peak bandwidth of the stream.
    pub fn bandwidth(&self) -> (res: u64)
        ensures
            res == self@.stream.bandwidth,
    {
        self.stream_data.bandwidth()
    }

    /// Sets the peak bandwidth of the stream.
    pub fn set_bandwidth(&mut self, value: u64)
        ensures
            final(self)@ == (StreamInfView {
                stream: StreamView { bandwidth: value, ..old(self)@.stream },
                ..old(self)@
            }),
    {
        self.stream_data.set_bandwidth(value);
    }

    /// The average bandwidth of the stream.
    pub fn average_bandwidth(&self) -> (res: Option<u64>)
        ensures
            res == self@.stream.average_bandwidth,
    {
        self.stream_data.average_bandwidth()
    }

    /// The codecs of the stream.
    pub fn codecs(&self) -> (res: Option<&String>)
        ensures
            opt_view(match res {
                Some(s) => Some(*s),
                None => None,
            }) == self@.stream.codecs,
    {
        self.stream_data.codecs()
    }

    /// The resolution of the stream.
    pub fn resolution(&self) -> (res: Option<crate::types::Resolution>)
        ensures
            res == self@.stream.resolution,
    {
        self.stream_data.resolution()
    }

    /// The HDCP level of the stream.
    pub fn hdcp_level(&self) -> (res: Option<HdcpLevel>)
        ensures
            res == self@.stream.hdcp_level,
    {
        self.stream_data.hdcp_level()
    }

    /// The group id of the video renditions of the stream.
    pub fn video(&self) -> (res: Option<&String>)
        ensures
            opt_view(match res {
                Some(s) => Some(*s),
                None => None,
            }) == self@.stream.video,
    {
        self.stream_data.video()
    }

    /// This tag requires protocol version 1.
    pub fn required_version(&self) -> (res: ProtocolVersion)
        ensures
            res == ProtocolVersion::V1,
    {
        ProtocolVersion::V1
    }

    /// This tag requires protocol version 1.
    pub fn requires_version(&self) -> (res: ProtocolVersion)
        ensures
            res == ProtocolVersion::V1,
    {
        ProtocolVersion::V1
    }

    /// The text of the tag and of its location line.
    pub open spec fn spec_to_string(self) -> Seq<char> {
        stream_inf_text(self@)
    }

    /// The stream that the two lines `s` hold: the tag, then the location.
    pub open spec fn spec_parse(s: Seq<char>) -> Option<StreamInfView> {
        if s.len() == 0 {
            None
        } else {
            match second_line(s) {
                Some(uri) => match after_tag(line_of(s), "#EXT-X-STREAM-INF:"@) {
                    Some(r) => stream_inf_of_pairs(attr_pairs(r), uri),
                    None => None,
                },
                None => None,
            }
        }
    }

    /// Appends the text of the tag and of its location line to `out`.
    pub fn write(&self, out: &mut Vec<char>)
        ensures
            final(out)@ == old(out)@ + self.spec_to_string(),
    {
        let ghost start = out@;
        push_str(out, "#EXT-X-STREAM-INF:");
        self.stream_data.write(out);
        write_stream_inf_extra(
            out,
            self.frame_rate,
            &self.audio,
            &self.subtitles,
            &self.closed_captions,
        );
        out.push('\n');
        push_string(out, &self.uri);
        assert(out@ =~= start + stream_inf_text(self@));
    }

    /// The text of the tag and of its location line.
    pub fn to_string(&self) -> (res: String)
        ensures
            res@ == self.spec_to_string(),
    {
        let mut out = Vec::new();
        self.write(&mut out);
        string_of(&out)
    }

    /// Reads the stream from its attribute list and its location.
    pub fn from_parts(r: &Vec<char>, uri: &Vec<char>) -> (res: Result<ExtXStreamInf, Error>)
        ensures
            res is Ok <==> stream_inf_of_pairs(attr_pairs(r@), uri@) is Some,
            res matches Ok(t) ==> stream_inf_of_pairs(attr_pairs(r@), uri@) == Some(t@),
            attr_ok::<UFloat>(attr_pairs(r@), "FRAME-RATE"@) && stream_attrs_ok(attr_pairs(r@))
                && attr_val::<u64>(attr_pairs(r@), "BANDWIDTH"@) is None ==> (res matches Err(
                Error::MissingValue { value },
            ) && value@ == "BANDWIDTH"@),
    {
        let pairs = pairs_of(r);
        let frame_rate = parse_attr::<UFloat>(&pairs, "FRAME-RATE")?;
        let stream_data = StreamData::from_pairs(&pairs)?;
        Ok(
            ExtXStreamInf {
                uri: string_of(uri),
                frame_rate,
                audio: quoted_value(&pairs, "AUDIO"),
                subtitles: quoted_value(&pairs, "SUBTITLES"),
                closed_captions: closed_captions_value(&pairs),
                stream_data,
            },
        )
    }

    /// Parses the tag and its location line from the characters of the two lines.
    pub fn parse_chars(v: &Vec<char>) -> (res: Result<ExtXStreamInf, Error>)
        ensures
            res is Ok <==> Self::spec_parse(v@) is Some,
            res matches Ok(t) ==> Self::spec_parse(v@) == Some(t@),
            stream_inf_error(v@, res),
    {
        if v.len() == 0 {
            return Err(Error::MissingValue { value: String::from_str("first_line") });
        }
        let first = first_line(v);
        let uri = match line_after(v) {
            Some(u) => u,
            None => {
                return Err(Error::MissingValue { value: String::from_str("URI") });
            },
        };
        let r = expect_tag(&first, "#EXT-X-STREAM-INF:")?;
        Self::from_parts(&r, &uri)
    }

    /// Parses the tag and its location line.
    pub fn try_from(input: &str) -> (res: Result<ExtXStreamInf, Error>)
        ensures
            res is Ok <==> Self::spec_parse(input@) is Some,
            res matches Ok(t) ==> Self::spec_parse(input@) == Some(t@),
            stream_inf_error(input@, res),
    {
        Self::parse_chars(&chars_of(input))
    }
}

/// The error that reading the text `s` as an `#EXT-X-STREAM-INF` tag and its location
/// gives, where it is determined by the checks of the tag itself: no first line, no
/// line after it, a first line without the tag, or, when every value can be read, a
/// missing `BANDWIDTH`.
pub open spec fn stream_inf_error(s: Seq<char>, res: Result<ExtXStreamInf, Error>) -> bool {
    if s.len() == 0 {
        res matches Err(Error::MissingValue { value }) && value@ == "first_line"@
    } else if second_line(s) is None {
        res matches Err(Error::MissingValue { value }) && value@ == "URI"@
    } else {
        match after_tag(line_of(s), "#EXT-X-STREAM-INF:"@) {
            None => res matches Err(Error::MissingTag { tag, input }) && tag@
                == "#EXT-X-STREAM-INF:"@ && input@ == line_of(s),
            Some(r) => attr_ok::<UFloat>(attr_pairs(r), "FRAME-RATE"@) && stream_attrs_ok(
                attr_pairs(r),
            ) && attr_val::<u64>(attr_pairs(r), "BANDWIDTH"@) is None ==> (res matches Err(
                Error::MissingValue { value },
            ) && value@ == "BANDWIDTH"@),
        }
    }
}

/// The error that reading the line `s` as an `#EXT-X-I-FRAME-STREAM-INF` tag gives,
/// where it is determined by the checks of the tag itself: a line without the tag, a
/// missing `URI`, or, when every value can be read, a missing `BANDWIDTH`.
pub open spec fn iframe_error(s: Seq<char>, res: Result<ExtXIFrameStreamInf, Error>) -> bool {
    match after_tag(s, "#EXT-X-I-FRAME-STREAM-INF:"@) {
        None => res matches Err(Error::MissingTag { tag, input }) && tag@
            == "#EXT-X-I-FRAME-STREAM-INF:"@ && input@ == s,
        Some(r) => {
            &&& quoted_attr(attr_pairs(r), "URI"@) is None ==> (res matches Err(
                Error::MissingValue { value },
            ) && value@ == "URI"@)
            &&& quoted_attr(attr_pairs(r), "URI"@) is Some && stream_attrs_ok(attr_pairs(r))
                && attr_val::<u64>(attr_pairs(r), "BANDWIDTH"@) is None ==> (res matches Err(
                Error::MissingValue { value },
            ) && value@ == "BANDWIDTH"@)
        },
    }
}

/// The text of an optional frame rate, with three digits after the point.
pub open spec fn frame_rate_text(f: Option<UFloat>) -> Option<Seq<char>> {
    match f {
        Some(x) => Some(x.spec_to_fixed3()),
        None => None,
    }
}

/// The text of optional closed captions.
pub open spec fn opt_cc_text(c: Option<Option<Seq<char>>>) -> Option<Seq<char>> {
    match c {
        Some(x) => Some(closed_captions_text(x)),
        None => None,
    }
}

/// The attribute pairs of an `#EXT-X-STREAM-INF` tag, in order.
pub open spec fn stream_inf_pairs(i: StreamInfView) -> Seq<(Seq<char>, Seq<char>)> {
    let base = seq![("BANDWIDTH"@, dec(i.stream.bandwidth as nat))];
    let p5 = stream_rest_pairs(base, i.stream);
    let p6 = opt_push(p5, "FRAME-RATE"@, frame_rate_text(i.frame_rate));
    let p7 = opt_push(p6, "AUDIO"@, opt_quoted(i.audio));
    let p8 = opt_push(p7, "SUBTITLES"@, opt_quoted(i.subtitles));
    opt_push(p8, "CLOSED-CAPTIONS"@, opt_cc_text(i.closed_captions))
}

/// Streams whose text reads back as themselves: the location is one line that is not
/// blank and not padded with white space, the frame rate has at most three digits after
/// the point, and the texts hold no double quote, line feed or carriage return.
pub open spec fn stream_inf_reads_back(i: StreamInfView) -> bool {
    &&& i.uri.len() > 0
    &&& trim(i.uri) == i.uri
    &&& no_lf(i.uri)
    &&& (i.frame_rate matches Some(f) ==> f@.1 < 1_000_000_000 && f@.1 % 1_000_000 == 0)
    &&& plain_opt(i.audio)
    &&& plain_opt(i.subtitles)
    &&& (i.closed_captions matches Some(Some(g)) ==> strip_quotes(g) == g)
    &&& stream_reads_back(i.stream)
}

/// Appending a sum of four texts is appending them one by one.
proof fn lemma_concat_four(x: Seq<char>, a: Seq<char>, b: Seq<char>, c: Seq<char>, d: Seq<char>)
    ensures
        x + (a + b + c + d) == x + a + b + c + d,
{
    assert(x + (a + b + c + d) =~= x + a + b + c + d);
}

/// The attribute list of a stream tag is the attribute list of its pairs.
proof fn lemma_stream_inf_text_pairs(i: StreamInfView)
    ensures
        stream_text(i.stream) + stream_inf_extra(i) == attr_list(stream_inf_pairs(i)),
        stream_inf_pairs(i).len() > 0,
{
    reveal_strlit("BANDWIDTH=");
    reveal_strlit("BANDWIDTH");
    reveal_strlit(",FRAME-RATE=");
    reveal_strlit("FRAME-RATE");
    reveal_strlit(",CLOSED-CAPTIONS=");
    reveal_strlit("CLOSED-CAPTIONS");
    reveal(pair_chunk);
    let d = i.stream;
    let base = seq![("BANDWIDTH"@, dec(d.bandwidth as nat))];
    let p5 = stream_rest_pairs(base, d);
    let p6 = opt_push(p5, "FRAME-RATE"@, frame_rate_text(i.frame_rate));
    let p7 = opt_push(p6, "AUDIO"@, opt_quoted(i.audio));
    let p8 = opt_push(p7, "SUBTITLES"@, opt_quoted(i.subtitles));
    assert(attr_list(base) =~= "BANDWIDTH="@ + dec(d.bandwidth as nat));
    lemma_stream_rest_text(base, d);
    assert(attr_list(p5) == stream_text(d));
    lemma_opt_push_text(p5, "FRAME-RATE"@, frame_rate_text(i.frame_rate));
    lemma_opt_push_text(p6, "AUDIO"@, opt_quoted(i.audio));
    lemma_opt_push_text(p7, "SUBTITLES"@, opt_quoted(i.subtitles));
    lemma_opt_push_text(p8, "CLOSED-CAPTIONS"@, opt_cc_text(i.closed_captions));
    let fr = match i.frame_rate {
        Some(f) => ",FRAME-RATE="@ + f.spec_to_fixed3(),
        None => seq![],
    };
    let cc = match i.closed_captions {
        Some(c) => ",CLOSED-CAPTIONS="@ + closed_captions_text(c),
        None => seq![],
    };
    assert(pair_chunk("FRAME-RATE"@, frame_rate_text(i.frame_rate)) =~= fr);
    assert(pair_chunk("AUDIO"@, opt_quoted(i.audio)) =~= opt_quoted_attr("AUDIO"@, i.audio));
    assert(pair_chunk("SUBTITLES"@, opt_quoted(i.subtitles)) =~= opt_quoted_attr(
        "SUBTITLES"@,
        i.subtitles,
    ));
    assert(pair_chunk("CLOSED-CAPTIONS"@, opt_cc_text(i.closed_captions)) =~= cc);
    lemma_concat_four(
        stream_text(d),
        fr,
        opt_quoted_attr("AUDIO"@, i.audio),
        opt_quoted_attr("SUBTITLES"@, i.subtitles),
        cc,
    );
}

/// The names of the attributes that a stream tag adds to its stream data.
proof fn lemma_stream_inf_keys()
    ensures
        "FRAME-RATE"@.len() == 10 && "FRAME-RATE"@[0] == 'F',
        "AUDIO"@.len() == 5 && "AUDIO"@[0] == 'A',
        "SUBTITLES"@.len() == 9 && "SUBTITLES"@[0] == 'S',
        "CLOSED-CAPTIONS"@.len() == 15,
        wf_key("FRAME-RATE"@),
        wf_key("AUDIO"@),
        wf_key("SUBTITLES"@),
        wf_key("CLOSED-CAPTIONS"@),
{
    reveal_strlit("FRAME-RATE");
    reveal_strlit("AUDIO");
    reveal_strlit("SUBTITLES");
    reveal_strlit("CLOSED-CAPTIONS");
    lemma_plain_key("FRAME-RATE"@);
    lemma_plain_key("AUDIO"@);
    lemma_plain_key("SUBTITLES"@);
    lemma_plain_key("CLOSED-CAPTIONS"@);
}

/// Reading the pairs of a stream tag gives the stream back, and the pairs are
/// well-formed.
proof fn lemma_stream_inf_read(i: StreamInfView)
    requires
        stream_inf_reads_back(i),
    ensures
        wf_pairs(stream_inf_pairs(i)),
        stream_inf_of_pairs(stream_inf_pairs(i), i.uri) == Some(i),
{
    let d = i.stream;
    let kb = "BANDWIDTH"@;
    let kf = "FRAME-RATE"@;
    let ka = "AUDIO"@;
    let ks = "SUBTITLES"@;
    let kc = "CLOSED-CAPTIONS"@;
    lemma_stream_keys();
    lemma_stream_inf_keys();
    let e = Seq::<(Seq<char>, Seq<char>)>::empty();
    let b = (kb, dec(d.bandwidth as nat));
    let base = seq![b];
    assert(base == e.push(b));
    let p5 = stream_rest_pairs(base, d);
    let p6 = opt_push(p5, kf, frame_rate_text(i.frame_rate));
    let p7 = opt_push(p6, ka, opt_quoted(i.audio));
    let p8 = opt_push(p7, ks, opt_quoted(i.subtitles));
    let ps = stream_inf_pairs(i);
    // well-formedness
    lemma_stream_values_wf(d);
    lemma_wf_pairs_push(e, b);
    let p1 = opt_push(base, "AVERAGE-BANDWIDTH"@, opt_dec(d.average_bandwidth));
    let p2 = opt_push(p1, "CODECS"@, opt_quoted(d.codecs));
    let p3 = opt_push(p2, "RESOLUTION"@, opt_resolution(d.resolution));
    let p4 = opt_push(p3, "HDCP-LEVEL"@, opt_hdcp(d.hdcp_level));
    lemma_opt_push_wf(base, "AVERAGE-BANDWIDTH"@, opt_dec(d.average_bandwidth));
    lemma_opt_push_wf(p1, "CODECS"@, opt_quoted(d.codecs));
    lemma_opt_push_wf(p2, "RESOLUTION"@, opt_resolution(d.resolution));
    lemma_opt_push_wf(p3, "HDCP-LEVEL"@, opt_hdcp(d.hdcp_level));
    lemma_opt_push_wf(p4, "VIDEO"@, opt_quoted(d.video));
    if let Some(f) = i.frame_rate {
        lemma_fixed3_roundtrip(f);
        let t = f.spec_to_fixed3();
        assert forall|j: int| 0 <= j < t.len() implies t[j] != '"' && t[j] != ',' by {
            assert(is_digit(t[j]) || t[j] == '.');
        }
        assert(t.last() == t[t.len() - 1]);
        lemma_plain_value(t);
    }
    lemma_opt_push_wf(p5, kf, frame_rate_text(i.frame_rate));
    if let Some(a) = i.audio {
        lemma_quoted_wf_value(a);
    }
    lemma_opt_push_wf(p6, ka, opt_quoted(i.audio));
    if let Some(x) = i.subtitles {
        lemma_quoted_wf_value(x);
    }
    lemma_opt_push_wf(p7, ks, opt_quoted(i.subtitles));
    reveal_strlit("NONE");
    if let Some(c) = i.closed_captions {
        match c {
            Some(g) => lemma_quoted_wf_value(g),
            None => lemma_plain_value("NONE"@),
        }
    }
    lemma_opt_push_wf(p8, kc, opt_cc_text(i.closed_captions));
    // values
    lemma_values_for_push(e, b, kb);
    lemma_values_for_push(e, b, kf);
    lemma_values_for_push(e, b, ka);
    lemma_values_for_push(e, b, ks);
    lemma_values_for_push(e, b, kc);
    lemma_values_for_push(e, b, "AVERAGE-BANDWIDTH"@);
    lemma_values_for_push(e, b, "CODECS"@);
    lemma_values_for_push(e, b, "RESOLUTION"@);
    lemma_values_for_push(e, b, "HDCP-LEVEL"@);
    lemma_values_for_push(e, b, "VIDEO"@);
    lemma_stream_rest_read(base, d);
    let ks10 = seq![
        kb,
        "AVERAGE-BANDWIDTH"@,
        "CODECS"@,
        "RESOLUTION"@,
        "HDCP-LEVEL"@,
        "VIDEO"@,
        kf,
        ka,
        ks,
        kc
    ];
    assert forall|j: int| 0 <= j < 10 implies values_for(ps, #[trigger] ks10[j]) == values_for(
        p5,
        ks10[j],
    ) + opt_val(kf == ks10[j], frame_rate_text(i.frame_rate)) + opt_val(
        ka == ks10[j],
        opt_quoted(i.audio),
    ) + opt_val(ks == ks10[j], opt_quoted(i.subtitles)) + opt_val(
        kc == ks10[j],
        opt_cc_text(i.closed_captions),
    ) by {
        lemma_opt_push_values(p5, kf, frame_rate_text(i.frame_rate), ks10[j]);
        lemma_opt_push_values(p6, ka, opt_quoted(i.audio), ks10[j]);
        lemma_opt_push_values(p7, ks, opt_quoted(i.subtitles), ks10[j]);
        lemma_opt_push_values(p8, kc, opt_cc_text(i.closed_captions), ks10[j]);
    }
    assert(ks10[0] == kb && ks10[1] == "AVERAGE-BANDWIDTH"@ && ks10[2] == "CODECS"@ && ks10[3]
        == "RESOLUTION"@ && ks10[4] == "HDCP-LEVEL"@ && ks10[5] == "VIDEO"@ && ks10[6] == kf
        && ks10[7] == ka && ks10[8] == ks && ks10[9] == kc);
    assert(values_for(ps, kb) =~= seq![dec(d.bandwidth as nat)]);
    assert(values_for(ps, "AVERAGE-BANDWIDTH"@) =~= opt_val(true, opt_dec(d.average_bandwidth)));
    assert(values_for(ps, "CODECS"@) =~= opt_val(true, opt_quoted(d.codecs)));
    assert(values_for(ps, "RESOLUTION"@) =~= opt_val(true, opt_resolution(d.resolution)));
    assert(values_for(ps, "HDCP-LEVEL"@) =~= opt_val(true, opt_hdcp(d.hdcp_level)));
    assert(values_for(ps, "VIDEO"@) =~= opt_val(true, opt_quoted(d.video)));
    assert(values_for(ps, kf) =~= opt_val(true, frame_rate_text(i.frame_rate)));
    assert(values_for(ps, ka) =~= opt_val(true, opt_quoted(i.audio)));
    assert(values_for(ps, ks) =~= opt_val(true, opt_quoted(i.subtitles)));
    assert(values_for(ps, kc) =~= opt_val(true, opt_cc_text(i.closed_captions)));
    lemma_stream_read(ps, d);
    if let Some(f) = i.frame_rate {
        if let Some(c) = UFloat::spec_value(f.spec_to_fixed3()) {
            lemma_ufloat_view(c, f);
        }
        assert(values_for(ps, kf)[0] == f.spec_to_fixed3());
    }
    assert(attr_ok::<UFloat>(ps, kf));
    if let Some(a) = i.audio {
        lemma_strip_quoted(a);
        assert(values_for(ps, ka).last() == quoted(a));
    }
    if let Some(x) = i.subtitles {
        lemma_strip_quoted(x);
        assert(values_for(ps, ks).last() == quoted(x));
    }
    if let Some(c) = i.closed_captions {
        assert(values_for(ps, kc).last() == closed_captions_text(c));
        match c {
            Some(g) => {
                lemma_strip_quoted(g);
                let q = quoted(g);
                assert(q[0] == '"' && q.last() == '"');
                lemma_trim_id(q);
                assert(q != "NONE"@) by {
                    assert("NONE"@[0] == 'N');
                }
            },
            None => {
                lemma_trim_id("NONE"@);
            },
        }
    }
}

/// `,KEY=` and a value, when both hold no line feed, hold none.
proof fn lemma_opt_attr_no_lf(key: Seq<char>, t: Option<Seq<char>>)
    requires
        no_lf(key),
        t matches Some(x) ==> no_lf(x),
    ensures
        no_lf(opt_attr(key, t)),
{
    if let Some(x) = t {
        lemma_no_lf_concat(seq![','], key);
        lemma_no_lf_concat(seq![','] + key, seq!['=']);
        lemma_no_lf_concat(seq![','] + key + seq!['='], x);
    }
}

/// The attribute list of stream data holds no line feed.
pub proof fn lemma_stream_text_no_lf(d: StreamView)
    ensures
        no_lf(stream_text(d)),
{
    reveal_strlit("BANDWIDTH=");
    reveal_strlit("AVERAGE-BANDWIDTH");
    reveal_strlit("CODECS");
    reveal_strlit("RESOLUTION");
    reveal_strlit("HDCP-LEVEL");
    reveal_strlit("VIDEO");
    lemma_dec_wf(d.bandwidth as nat);
    lemma_digits_no_lf(dec(d.bandwidth as nat));
    lemma_no_lf_concat("BANDWIDTH="@, dec(d.bandwidth as nat));
    if let Some(n) = d.average_bandwidth {
        lemma_dec_wf(n as nat);
        lemma_digits_no_lf(dec(n as nat));
    }
    if let Some(c) = d.codecs {
        lemma_quoted_no_lf(c);
    }
    if let Some(r) = d.resolution {
        let t = r.spec_to_string();
        lemma_dec_wf(r.width as nat);
        lemma_dec_wf(r.height as nat);
        let a = dec(r.width as nat);
        let b = dec(r.height as nat);
        assert forall|j: int| 0 <= j < t.len() implies is_digit(#[trigger] t[j]) || t[j] == '.'
            || t[j] == 'x' by {
            if j < a.len() {
                assert(t[j] == a[j]);
            } else if j > a.len() {
                assert(t[j] == b[j - a.len() - 1]);
            }
        }
        lemma_digits_no_lf(t);
    }
    if let Some(h) = d.hdcp_level {
        reveal_strlit("TYPE-0");
        reveal_strlit("TYPE-1");
        reveal_strlit("NONE");
        assert(no_lf(h.name()));
    }
    if let Some(v) = d.video {
        lemma_quoted_no_lf(v);
    }
    let o1 = opt_attr("AVERAGE-BANDWIDTH"@, opt_dec(d.average_bandwidth));
    let o2 = opt_attr("CODECS"@, opt_quoted(d.codecs));
    let o3 = opt_attr("RESOLUTION"@, opt_resolution(d.resolution));
    let o4 = opt_attr("HDCP-LEVEL"@, opt_hdcp(d.hdcp_level));
    let o5 = opt_attr("VIDEO"@, opt_quoted(d.video));
    lemma_opt_attr_no_lf("AVERAGE-BANDWIDTH"@, opt_dec(d.average_bandwidth));
    lemma_opt_attr_no_lf("CODECS"@, opt_quoted(d.codecs));
    lemma_opt_attr_no_lf("RESOLUTION"@, opt_resolution(d.resolution));
    lemma_opt_attr_no_lf("HDCP-LEVEL"@, opt_hdcp(d.hdcp_level));
    lemma_opt_attr_no_lf("VIDEO"@, opt_quoted(d.video));
    let t0 = "BANDWIDTH="@ + dec(d.bandwidth as nat);
    lemma_no_lf_concat(t0, o1);
    lemma_no_lf_concat(t0 + o1, o2);
    lemma_no_lf_concat(t0 + o1 + o2, o3);
    lemma_no_lf_concat(t0 + o1 + o2 + o3, o4);
    lemma_no_lf_concat(t0 + o1 + o2 + o3 + o4, o5);
}

/// The attributes that a stream tag adds to its stream data hold no line feed.
proof fn lemma_stream_extra_no_lf(i: StreamInfView)
    ensures
        no_lf(stream_inf_extra(i)),
{
    reveal_strlit("FRAME-RATE");
    reveal_strlit("AUDIO");
    reveal_strlit("SUBTITLES");
    reveal_strlit("CLOSED-CAPTIONS");
    reveal_strlit("NONE");
    if let Some(f) = i.frame_rate {
        let t = f.spec_to_fixed3();
        let (w, m) = rounded_millis(f@.0, f@.1);
        lemma_dec_wf(w);
        lemma_fixed_digits_bound(m);
        let a = dec(w);
        let b = fixed_digits(m, 3);
        assert forall|j: int| 0 <= j < t.len() implies is_digit(#[trigger] t[j]) || t[j] == '.'
            || t[j] == 'x' by {
            if j < a.len() {
                assert(t[j] == a[j]);
            } else if j > a.len() {
                assert(t[j] == b[j - a.len() - 1]);
            }
        }
        lemma_digits_no_lf(t);
    }
    if let Some(a) = i.audio {
        lemma_quoted_no_lf(a);
    }
    if let Some(x) = i.subtitles {
        lemma_quoted_no_lf(x);
    }
    if let Some(c) = i.closed_captions {
        if let Some(g) = c {
            lemma_quoted_no_lf(g);
        }
    }
    let e1 = opt_attr("FRAME-RATE"@, frame_rate_text(i.frame_rate));
    let e2 = opt_attr("AUDIO"@, opt_quoted(i.audio));
    let e3 = opt_attr("SUBTITLES"@, opt_quoted(i.subtitles));
    let e4 = opt_attr("CLOSED-CAPTIONS"@, opt_cc_text(i.closed_captions));
    lemma_opt_attr_no_lf("FRAME-RATE"@, frame_rate_text(i.frame_rate));
    lemma_opt_attr_no_lf("AUDIO"@, opt_quoted(i.audio));
    lemma_opt_attr_no_lf("SUBTITLES"@, opt_quoted(i.subtitles));
    lemma_opt_attr_no_lf("CLOSED-CAPTIONS"@, opt_cc_text(i.closed_captions));
    reveal_strlit(",FRAME-RATE=");
    reveal_strlit(",CLOSED-CAPTIONS=");
    assert(stream_inf_extra(i) =~= e1 + e2 + e3 + e4);
    lemma_no_lf_concat(e1, e2);
    lemma_no_lf_concat(e1 + e2, e3);
    lemma_no_lf_concat(e1 + e2 + e3, e4);
}

/// A line, a line feed and a second line: the first line and the second line are read
/// back, when neither holds a line feed nor ends with white space.
pub proof fn lemma_two_lines(a: Seq<char>, u: Seq<char>)
    requires
        a.len() > 0,
        no_lf(a),
        !is_ws(a.last()),
        u.len() > 0,
        no_lf(u),
        !is_ws(u.last()),
    ensures
        line_of(a + seq!['\n'] + u) == a,
        second_line(a + seq!['\n'] + u) == Some(u),
{
    let s = a + seq!['\n'] + u;
    assert forall|j: int| 0 <= j < a.len() implies s[j] != '\n' by {
        assert(s[j] == a[j]);
    }
    assert(s[a.len() as int] == '\n');
    lemma_find_char_at(s, '\n', a.len() as int);
    assert(s.take(a.len() as int) == a);
    assert(s.skip(a.len() + 1int) == u);
    lemma_find_char(u, '\n');
    if let Some(k) = find_char(u, '\n') {
        assert(u[k] == '\n');
    }
}

/// The text of a stream tag and the line after it.
pub proof fn lemma_stream_inf_lines(i: StreamInfView)
    requires
        stream_inf_reads_back(i),
    ensures
        attr_pairs(stream_text(i.stream) + stream_inf_extra(i)) == stream_inf_pairs(i),
        stream_inf_of_pairs(stream_inf_pairs(i), i.uri) == Some(i),
        (stream_text(i.stream) + stream_inf_extra(i)).len() > 0,
        no_lf(stream_text(i.stream) + stream_inf_extra(i)),
        !is_ws((stream_text(i.stream) + stream_inf_extra(i)).last()),
{
    let a = stream_text(i.stream) + stream_inf_extra(i);
    lemma_stream_inf_text_pairs(i);
    lemma_stream_inf_read(i);
    lemma_attr_roundtrip(stream_inf_pairs(i));
    lemma_stream_text_no_lf(i.stream);
    lemma_stream_extra_no_lf(i);
    lemma_no_lf_concat(stream_text(i.stream), stream_inf_extra(i));
    lemma_stream_text_ends(i.stream);
    lemma_stream_extra_ends(i);
    let x = stream_inf_extra(i);
    if x.len() > 0 {
        assert(a.last() == x.last());
    } else {
        assert(a.last() == stream_text(i.stream).last());
    }
}

/// What a stream tag adds to its stream data does not end with white space.
proof fn lemma_stream_extra_ends(i: StreamInfView)
    requires
        stream_inf_reads_back(i),
    ensures
        stream_inf_extra(i).len() > 0 ==> !is_ws(stream_inf_extra(i).last()),
{
    reveal_strlit(",FRAME-RATE=");
    reveal_strlit("FRAME-RATE");
    reveal_strlit(",CLOSED-CAPTIONS=");
    reveal_strlit("NONE");
    let e1 = opt_attr("FRAME-RATE"@, frame_rate_text(i.frame_rate));
    let e2 = opt_quoted_attr("AUDIO"@, i.audio);
    let e3 = opt_quoted_attr("SUBTITLES"@, i.subtitles);
    let e4 = match i.closed_captions {
        Some(c) => ",CLOSED-CAPTIONS="@ + closed_captions_text(c),
        None => seq![],
    };
    let x = stream_inf_extra(i);
    assert(x == e1 + e2 + e3 + e4) by {
        assert(opt_attr("FRAME-RATE"@, frame_rate_text(i.frame_rate)) =~= match i.frame_rate {
            Some(f) => ",FRAME-RATE="@ + f.spec_to_fixed3(),
            None => seq![],
        });
    }
    if let Some(f) = i.frame_rate {
        lemma_fixed3_roundtrip(f);
        assert(e1.last() == f.spec_to_fixed3().last());
    }
    if e4.len() > 0 {
        assert(x.last() == e4.last());
    } else if e3.len() > 0 {
        assert(x.last() == e3.last());
    } else if e2.len() > 0 {
        assert(x.last() == e2.last());
    } else if e1.len() > 0 {
        assert(x.last() == e1.last());
    }
}

/// Reading the text of an `#EXT-X-STREAM-INF` tag and its location line gives the
/// stream back, when it reads back as itself.
pub proof fn lemma_stream_inf_roundtrip(i: StreamInfView)
    requires
        stream_inf_reads_back(i),
    ensures
        ExtXStreamInf::spec_parse(stream_inf_text(i)) == Some(i),
{
    reveal_strlit("#EXT-X-STREAM-INF:");
    let p = "#EXT-X-STREAM-INF:"@;
    let a = stream_text(i.stream) + stream_inf_extra(i);
    lemma_stream_inf_lines(i);
    lemma_no_lf_concat(p, a);
    assert((p + a).last() == a.last());
    lemma_trim_keeps_ends(i.uri);
    lemma_two_lines(p + a, i.uri);
    assert(stream_inf_text(i) == p + a + seq!['\n'] + i.uri);
    lemma_after_tag(p, a);
}

impl RequiredVersion for ExtXStreamInf {
    fn required_version(&self) -> (res: ProtocolVersion)
        ensures
            res == ProtocolVersion::V1,
    {
        ProtocolVersion::V1
    }
}

/// A builder for an [`ExtXStreamInf`] tag.
#[derive(Debug, Clone)]
pub struct ExtXStreamInfBuilder {
    pub uri: Option<String>,
    pub frame_rate: Option<UFloat>,
    pub audio: Option<String>,
    pub subtitles: Option<String>,
    pub closed_captions: Option<ClosedCaptions>,
    pub stream_data: StreamDataBuilder,
}

impl ExtXStreamInfBuilder {
    /// Sets the location of the media playlist.
    pub fn uri(self, value: &str) -> (res: ExtXStreamInfBuilder)
        ensures
            res.uri matches Some(u) && u@ == value@,
            res.frame_rate == self.frame_rate,
            res.audio == self.audio,
            res.subtitles == self.subtitles,
            res.closed_captions == self.closed_captions,
            res.stream_data == self.stream_data,
    {
        ExtXStreamInfBuilder { uri: Some(String::from_str(value)), ..self }
    }

    /// Sets the maximum frame rate.
    pub fn frame_rate(self, value: UFloat) -> (res: ExtXStreamInfBuilder)
        ensures
            res.frame_rate == Some(value),
            res.uri == self.uri,
            res.audio == self.audio,
            res.subtitles == self.subtitles,
            res.closed_captions == self.closed_captions,
            res.stream_data == self.stream_data,
    {
        ExtXStreamInfBuilder { frame_rate: Some(value), ..self }
    }

    /// Sets the group id of the audio renditions.
    pub fn audio(self, value: &str) -> (res: ExtXStreamInfBuilder)
        ensures
            res.audio matches Some(u) && u@ == value@,
            res.uri == self.uri,
            res.frame_rate == self.frame_rate,
            res.subtitles == self.subtitles,
            res.closed_captions == self.closed_captions,
            res.stream_data == self.stream_data,
    {
        ExtXStreamInfBuilder { audio: Some(String::from_str(value)), ..self }
    }

    /// Sets the group id of the subtitle renditions.
    pub fn subtitles(self, value: &str) -> (res: ExtXStreamInfBuilder)
        ensures
            res.subtitles matches Some(u) && u@ == value@,
            res.uri == self.uri,
            res.frame_rate == self.frame_rate,
            res.audio == self.audio,
            res.closed_captions == self.closed_captions,
            res.stream_data == self.stream_data,
    {
        ExtXStreamInfBuilder { subtitles: Some(String::from_str(value)), ..self }
    }

    /// Sets the closed captions.
    pub fn closed_captions(self, value: ClosedCaptions) -> (res: ExtXStreamInfBuilder)
        ensures
            res.closed_captions == Some(value),
            res.uri == self.uri,
            res.frame_rate == self.frame_rate,
            res.audio == self.audio,
            res.subtitles == self.subtitles,
            res.stream_data == self.stream_data,
    {
        ExtXStreamInfBuilder { closed_captions: Some(value), ..self }
    }

    /// Sets the peak bandwidth.
    pub fn bandwidth(self, value: u64) -> (res: ExtXStreamInfBuilder)
        ensures
            res.stream_data@ == (crate::types::StreamBuilderView {
                bandwidth: Some(value),
                ..self.stream_data@
            }),
            res.uri == self.uri,
    {
        ExtXStreamInfBuilder { stream_data: self.stream_data.bandwidth(value), ..self }
    }

    /// Sets the average bandwidth.
    pub fn average_bandwidth(self, value: u64) -> (res: ExtXStreamInfBuilder)
        ensures
            res.stream_data@ == (crate::types::StreamBuilderView {
                average_bandwidth: Some(value),
                ..self.stream_data@
            }),
            res.uri == self.uri,
    {
        ExtXStreamInfBuilder { stream_data: self.stream_data.average_bandwidth(value), ..self }
    }

    /// Sets the codecs.
    pub fn codecs(self, value: &str) -> (res: ExtXStreamInfBuilder)
        ensures
            res.stream_data@ == (crate::types::StreamBuilderView {
                codecs: Some(value@),
                ..self.stream_data@
            }),
            res.uri == self.uri,
    {
        ExtXStreamInfBuilder { stream_data: self.stream_data.codecs(value), ..self }
    }

    /// Sets the resolution.
    pub fn resolution(self, width: usize, height: usize) -> (res: ExtXStreamInfBuilder)
        ensures
            res.stream_data@ == (crate::types::StreamBuilderView {
                resolution: Some(crate::types::Resolution { width, height }),
                ..self.stream_data@
            }),
            res.uri == self.uri,
    {
        ExtXStreamInfBuilder { stream_data: self.stream_data.resolution(width, height), ..self }
    }

    /// Sets the HDCP level.
    pub fn hdcp_level(self, value: HdcpLevel) -> (res: ExtXStreamInfBuilder)
        ensures
            res.stream_data@ == (crate::types::StreamBuilderView {
                hdcp_level: Some(value),
                ..self.stream_data@
            }),
            res.uri == self.uri,
    {
        ExtXStreamInfBuilder { stream_data: self.stream_data.hdcp_level(value), ..self }
    }

    /// Sets the group id of the video renditions.
    pub fn video(self, value: &str) -> (res: ExtXStreamInfBuilder)
        ensures
            res.stream_data@ == (crate::types::StreamBuilderView {
                video: Some(value@),
                ..self.stream_data@
            }),
            res.uri == self.uri,
    {
        ExtXStreamInfBuilder { stream_data: self.stream_data.video(value), ..self }
    }

    /// Builds the tag: the location and the bandwidth are required.
    pub fn build(self) -> (res: Result<ExtXStreamInf, Error>)
        ensures
            self.uri is None ==> (res matches Err(Error::MissingValue { value }) && value@
                == "frame rate"@),
            self.uri is Some && self.stream_data@.bandwidth is None ==> res is Err,
            self.uri matches Some(u) ==> (self.stream_data@.bandwidth matches Some(b) ==> (
            res matches Ok(t) && t@ == (StreamInfView {
                uri: u@,
                frame_rate: self.frame_rate,
                audio: opt_view(self.audio),
                subtitles: opt_view(self.subtitles),
                closed_captions: opt_cc(self.closed_captions),
                stream: StreamView {
                    bandwidth: b,
                    average_bandwidth: self.stream_data@.average_bandwidth,
                    codecs: self.stream_data@.codecs,
                    resolution: self.stream_data@.resolution,
                    hdcp_level: self.stream_data@.hdcp_level,
                    video: self.stream_data@.video,
                },
            }))),
    {
        let uri = match self.uri {
            Some(u) => u,
            None => {
                return Err(Error::MissingValue { value: String::from_str("frame rate") });
            },
        };
        let stream_data = match self.stream_data.build() {
            Ok(d) => d,
            Err(m) => {
                return Err(Error::Custom(m));
            },
        };
        Ok(
            ExtXStreamInf {
                uri,
                frame_rate: self.frame_rate,
                audio: self.audio,
                subtitles: self.subtitles,
                closed_captions: self.closed_captions,
                stream_data,
            },
        )
    }
}

/// The parts of an `#EXT-X-I-FRAME-STREAM-INF` tag.
pub struct IFrameView {
    pub uri: Seq<char>,
    pub stream: StreamView,
}

/// The text of an `#EXT-X-I-FRAME-STREAM-INF` tag.
pub open spec fn iframe_text(i: IFrameView) -> Seq<char> {
    "#EXT-X-I-FRAME-STREAM-INF:"@ + "URI="@ + quoted(i.uri) + seq![','] + stream_text(i.stream)
}

/// The I-frame stream that the attribute list `ps` describes.
pub open spec fn iframe_of_pairs(ps: Seq<(Seq<char>, Seq<char>)>) -> Option<IFrameView> {
    match quoted_attr(ps, "URI"@) {
        Some(u) => match stream_of_pairs(ps) {
            Some(d) => Some(IFrameView { uri: u, stream: d }),
            None => None,
        },
        None => None,
    }
}

/// The `#EXT-X-I-FRAME-STREAM-INF` tag: a media playlist of the I-frames of a variant
/// stream (RFC 8216, section 4.3.4.3).
#[derive(Debug, Clone, PartialEq, Eq, PartialOrd, Ord, Hash)]
pub struct ExtXIFrameStreamInf {
    uri: String,
    stream_data: StreamData,
}

impl View for ExtXIFrameStreamInf {
    type V = IFrameView;

    closed spec fn view(&self) -> IFrameView {
        IFrameView { uri: self.uri@, stream: self.stream_data@ }
    }
}

impl ExtXIFrameStreamInf {
    /// An I-frame stream at `uri` with the given bandwidth and nothing else.
    pub fn new(uri: &str, bandwidth: u64) -> (res: ExtXIFrameStreamInf)
        ensures
            res@.uri == uri@,
            res@.stream == (StreamView {
                bandwidth,
                average_bandwidth: None,
                codecs: None,
                resolution: None,
                hdcp_level: None,
                video: None,
            }),
    {
        ExtXIFrameStreamInf { uri: String::from_str(uri), stream_data: StreamData::new(bandwidth) }
    }

    /// A builder for an I-frame stream.
    pub fn builder() -> (res: ExtXIFrameStreamInfBuilder)
        ensures
            res.uri is None,
    {
        ExtXIFrameStreamInfBuilder { uri: None, stream_data: StreamData::builder() }
    }

    /// The parts of the tag.
    pub fn into_parts(self) -> (res: (String, StreamData))
        ensures
            res.0@ == self@.uri,
            res.1@ == self@.stream,
    {
        (self.uri, self.stream_data)
    }

    /// The location of the I-frame media playlist.
    pub fn uri(&self) -> (res: &String)
        ensures
            res@ == self@.uri,
    {
        &self.uri
    }

    /// Sets the location of the I-frame media playlist.
    pub fn set_uri(&mut self, value: &str)
        ensures
            final(self)@ == (IFrameView { uri: value@, ..old(self)@ }),
    {
        self.uri = String::from_str(value);
    }

    /// The data of the stream.
    pub fn stream_data(&self) -> (res: &StreamData)
        ensures
            res@ == self@.stream,
    {
        &self.stream_data
    }

    /// Sets the average bandwidth of the stream.
    pub fn set_average_bandwidth(&mut self, value: Option<u64>)
        ensures
            final(self)@ == (IFrameView {
                stream: StreamView { average_bandwidth: value, ..old(self)@.stream },
                ..old(self)@
            }),
    {
        self.stream_data.set_average_bandwidth(value);
    }

    /// Sets the codecs of the stream.
    pub fn set_codecs(&mut self, value: Option<&str>)
        ensures
            final(self)@ == (IFrameView {
                stream: StreamView {
                    codecs: match value {
                        Some(v) => Some(v@),
                        None => None,
                    },
                    ..old(self)@.stream
                },
                ..old(self)@
            }),
    {
        self.stream_data.set_codecs(value);
    }

    /// Sets the resolution of the stream.
    pub fn set_resolution(&mut self, width: usize, height: usize)
        ensures
            final(self)@ == (IFrameView {
                stream: StreamView {
                    resolution: Some(crate::types::Resolution { width, height }),
                    ..old(self)@.stream
                },
                ..old(self)@
            }),
    {
        self.stream_data.set_resolution(width, height);
    }

    /// Sets the HDCP level of the stream.
    pub fn set_hdcp_level(&mut self, value: Option<HdcpLevel>)
        ensures
            final(self)@ == (IFrameView {
                stream: StreamView { hdcp_level: value, ..old(self)@.stream },
                ..old(self)@
            }),
    {
        self.stream_data.set_hdcp_level(value);
    }

    /// Sets the group id of the video renditions of the stream.
    pub fn set_video(&mut self, value: Option<&str>)
        ensures
            final(self)@ == (IFrameView {
                stream: StreamView {
                    video: match value {
                        Some(v) => Some(v@),
                        None => None,
                    },
                    ..old(self)@.stream
                },
                ..old(self)@
            }),
    {
        self.stream_data.set_video(value);
    }

    /// The data of the stream, to change it.
    pub fn set_stream_data(&mut self, value: StreamData)
        ensures
            final(self)@ == (IFrameView { stream: value@, ..old(self)@ }),
    {
        self.stream_data = value;
    }

    /// The peak bandwidth of the stream.
    pub fn bandwidth(&self) -> (res: u64)
        ensures
            res == self@.stream.bandwidth,
    {
        self.stream_data.bandwidth()
    }

    /// The average bandwidth of the stream.
    pub fn average_bandwidth(&self) -> (res: Option<u64>)
        ensures
            res == self@.stream.average_bandwidth,
    {
        self.stream_data.average_bandwidth()
    }

    /// The codecs of the stream.
    pub fn codecs(&self) -> (res: Option<&String>)
        ensures
            opt_view(match res {
                Some(s) => Some(*s),
                None => None,
            }) == self@.stream.codecs,
    {
        self.stream_data.codecs()
    }

    /// The resolution of the stream.
    pub fn resolution(&self) -> (res: Option<crate::types::Resolution>)
        ensures
            res == self@.stream.resolution,
    {
        self.stream_data.resolution()
    }

    /// The HDCP level of the stream.
    pub fn hdcp_level(&self) -> (res: Option<HdcpLevel>)
        ensures
            res == self@.stream.hdcp_level,
    {
        self.stream_data.hdcp_level()
    }

    /// The group id of the video renditions of the stream.
    pub fn video(&self) -> (res: Option<&String>)
        ensures
            opt_view(match res {
                Some(s) => Some(*s),
                None => None,
            }) == self@.stream.video,
    {
        self.stream_data.video()
    }

    /// This tag requires protocol version 1.
    pub fn required_version(&self) -> (res: ProtocolVersion)
        ensures
            res == ProtocolVersion::V1,
    {
        ProtocolVersion::V1
    }

    /// This tag requires protocol version 1.
    pub fn requires_version(&self) -> (res: ProtocolVersion)
        ensures
            res == ProtocolVersion::V1,
    {
        ProtocolVersion::V1
    }

    /// The text of the tag.
    pub open spec fn spec_to_string(self) -> Seq<char> {
        iframe_text(self@)
    }

    /// The I-frame stream that the line `s` holds.
    pub open spec fn spec_parse(s: Seq<char>) -> Option<IFrameView> {
        match after_tag(s, "#EXT-X-I-FRAME-STREAM-INF:"@) {
            Some(r) => iframe_of_pairs(attr_pairs(r)),
            None => None,
        }
    }

    /// Appends the text of the tag to `out`.
    pub fn write(&self, out: &mut Vec<char>)
        ensures
            final(out)@ == old(out)@ + self.spec_to_string(),
    {
        let ghost start = out@;
        push_str(out, "#EXT-X-I-FRAME-STREAM-INF:");
        push_str(out, "URI=");
        push_quoted_string(out, &self.uri);
        out.push(',');
        self.stream_data.write(out);
        assert(out@ =~= start + iframe_text(self@));
    }

    /// The text of the tag.
    pub fn to_string(&self) -> (res: String)
        ensures
            res@ == self.spec_to_string(),
    {
        let mut out = Vec::new();
        self.write(&mut out);
        string_of(&out)
    }

    /// Reads the stream from its attribute list.
    pub fn from_pairs(pairs: &Vec<(Vec<char>, Vec<char>)>) -> (res: Result<
        ExtXIFrameStreamInf,
        Error,
    >)
        ensures
            res is Ok <==> iframe_of_pairs(pair_views(pairs@)) is Some,
            res matches Ok(t) ==> iframe_of_pairs(pair_views(pairs@)) == Some(t@),
            quoted_attr(pair_views(pairs@), "URI"@) is None ==> (res matches Err(
                Error::MissingValue { value },
            ) && value@ == "URI"@),
            quoted_attr(pair_views(pairs@), "URI"@) is Some && stream_attrs_ok(pair_views(pairs@))
                && attr_val::<u64>(pair_views(pairs@), "BANDWIDTH"@) is None ==> (res matches Err(
                Error::MissingValue { value },
            ) && value@ == "BANDWIDTH"@),
    {
        let uri = match quoted_value(pairs, "URI") {
            Some(u) => u,
            None => {
                return Err(Error::MissingValue { value: String::from_str("URI") });
            },
        };
        let stream_data = StreamData::from_pairs(pairs)?;
        Ok(ExtXIFrameStreamInf { uri, stream_data })
    }

    /// Parses the tag from the characters of a line.
    pub fn parse_chars(v: &Vec<char>) -> (res: Result<ExtXIFrameStreamInf, Error>)
        ensures
            res is Ok <==> Self::spec_parse(v@) is Some,
            res matches Ok(t) ==> Self::spec_parse(v@) == Some(t@),
            iframe_error(v@, res),
    {
        let r = expect_tag(v, "#EXT-X-I-FRAME-STREAM-INF:")?;
        let pairs = pairs_of(&r);
        Self::from_pairs(&pairs)
    }

    /// Parses the tag.
    pub fn try_from(input: &str) -> (res: Result<ExtXIFrameStreamInf, Error>)
        ensures
            res is Ok <==> Self::spec_parse(input@) is Some,
            res matches Ok(t) ==> Self::spec_parse(input@) == Some(t@),
            iframe_error(input@, res),
    {
        Self::parse_chars(&chars_of(input))
    }
}

/// The values of an attribute in pairs that start with `base` and go on with the pairs
/// of stream data after its bandwidth, when `base` names none of those attributes.
proof fn lemma_stream_rest_read(
    base: Seq<(Seq<char>, Seq<char>)>,
    d: StreamView,
)
    requires
        values_for(base, "AVERAGE-BANDWIDTH"@).len() == 0,
        values_for(base, "CODECS"@).len() == 0,
        values_for(base, "RESOLUTION"@).len() == 0,
        values_for(base, "HDCP-LEVEL"@).len() == 0,
        values_for(base, "VIDEO"@).len() == 0,
    ensures
        values_for(stream_rest_pairs(base, d), "AVERAGE-BANDWIDTH"@) == opt_val(
            true,
            opt_dec(d.average_bandwidth),
        ),
        values_for(stream_rest_pairs(base, d), "CODECS"@) == opt_val(true, opt_quoted(d.codecs)),
        values_for(stream_rest_pairs(base, d), "RESOLUTION"@) == opt_val(
            true,
            opt_resolution(d.resolution),
        ),
        values_for(stream_rest_pairs(base, d), "HDCP-LEVEL"@) == opt_val(
            true,
            opt_hdcp(d.hdcp_level),
        ),
        values_for(stream_rest_pairs(base, d), "VIDEO"@) == opt_val(true, opt_quoted(d.video)),
        forall|k: Seq<char>|
            k != "AVERAGE-BANDWIDTH"@ && k != "CODECS"@ && k != "RESOLUTION"@ && k
                != "HDCP-LEVEL"@ && k != "VIDEO"@ ==> #[trigger] values_for(
                stream_rest_pairs(base, d),
                k,
            ) == values_for(base, k),
{
    lemma_stream_keys();
    let ks = seq!["AVERAGE-BANDWIDTH"@, "CODECS"@, "RESOLUTION"@, "HDCP-LEVEL"@, "VIDEO"@];
    lemma_stream_rest_values(base, d, "AVERAGE-BANDWIDTH"@);
    lemma_stream_rest_values(base, d, "CODECS"@);
    lemma_stream_rest_values(base, d, "RESOLUTION"@);
    lemma_stream_rest_values(base, d, "HDCP-LEVEL"@);
    lemma_stream_rest_values(base, d, "VIDEO"@);
    assert(values_for(stream_rest_pairs(base, d), "AVERAGE-BANDWIDTH"@) =~= opt_val(
        true,
        opt_dec(d.average_bandwidth),
    ));
    assert(values_for(stream_rest_pairs(base, d), "CODECS"@) =~= opt_val(true, opt_quoted(d.codecs)));
    assert(values_for(stream_rest_pairs(base, d), "RESOLUTION"@) =~= opt_val(
        true,
        opt_resolution(d.resolution),
    ));
    assert(values_for(stream_rest_pairs(base, d), "HDCP-LEVEL"@) =~= opt_val(
        true,
        opt_hdcp(d.hdcp_level),
    ));
    assert(values_for(stream_rest_pairs(base, d), "VIDEO"@) =~= opt_val(true, opt_quoted(d.video)));
    assert forall|k: Seq<char>|
        k != "AVERAGE-BANDWIDTH"@ && k != "CODECS"@ && k != "RESOLUTION"@ && k != "HDCP-LEVEL"@
            && k != "VIDEO"@ implies #[trigger] values_for(stream_rest_pairs(base, d), k)
        == values_for(base, k) by {
        lemma_stream_rest_values(base, d, k);
        assert(values_for(stream_rest_pairs(base, d), k) =~= values_for(base, k));
    }
}

/// An I-frame stream whose text reads back as itself: its location holds no double
/// quote, line feed or carriage return, nor do the texts of its stream data.
pub open spec fn iframe_reads_back(i: IFrameView) -> bool {
    strip_quotes(i.uri) == i.uri && stream_reads_back(i.stream)
}

/// Reading the text of an `#EXT-X-I-FRAME-STREAM-INF` tag gives the tag back, when it
/// reads back as itself.
pub proof fn lemma_iframe_roundtrip(i: IFrameView)
    requires
        iframe_reads_back(i),
    ensures
        ExtXIFrameStreamInf::spec_parse(iframe_text(i)) == Some(i),
        after_tag(iframe_text(i), "#EXT-X-I-FRAME-STREAM-INF:"@) == Some(
            "URI="@ + quoted(i.uri) + seq![','] + stream_text(i.stream),
        ),
        values_for(attr_pairs("URI="@ + quoted(i.uri) + seq![','] + stream_text(i.stream)), "URI"@)
            == seq![quoted(i.uri)],
        stream_of_pairs(attr_pairs("URI="@ + quoted(i.uri) + seq![','] + stream_text(i.stream)))
            == Some(i.stream),
{
    reveal_strlit("#EXT-X-I-FRAME-STREAM-INF:");
    reveal_strlit("URI=");
    reveal_strlit("URI");
    reveal_strlit("BANDWIDTH=");
    let d = i.stream;
    let ku = "URI"@;
    let kb = "BANDWIDTH"@;
    lemma_stream_keys();
    assert(ku.len() == 3);
    lemma_plain_key(ku);
    let u = (ku, quoted(i.uri));
    let b = (kb, dec(d.bandwidth as nat));
    let e = Seq::<(Seq<char>, Seq<char>)>::empty();
    let base = e.push(u).push(b);
    lemma_attr_list_push(e, u);
    lemma_attr_list_push(e.push(u), b);
    lemma_quoted_wf_value(i.uri);
    lemma_stream_values_wf(d);
    lemma_wf_pairs_push(e, u);
    lemma_wf_pairs_push(e.push(u), b);
    let ps = stream_rest_pairs(base, d);
    lemma_stream_rest_text(base, d);
    let p1 = opt_push(base, "AVERAGE-BANDWIDTH"@, opt_dec(d.average_bandwidth));
    let p2 = opt_push(p1, "CODECS"@, opt_quoted(d.codecs));
    let p3 = opt_push(p2, "RESOLUTION"@, opt_resolution(d.resolution));
    let p4 = opt_push(p3, "HDCP-LEVEL"@, opt_hdcp(d.hdcp_level));
    lemma_opt_push_wf(base, "AVERAGE-BANDWIDTH"@, opt_dec(d.average_bandwidth));
    lemma_opt_push_wf(p1, "CODECS"@, opt_quoted(d.codecs));
    lemma_opt_push_wf(p2, "RESOLUTION"@, opt_resolution(d.resolution));
    lemma_opt_push_wf(p3, "HDCP-LEVEL"@, opt_hdcp(d.hdcp_level));
    lemma_opt_push_wf(p4, "VIDEO"@, opt_quoted(d.video));
    reveal_strlit("BANDWIDTH");
    let body = "URI="@ + quoted(i.uri) + seq![','] + stream_text(d);
    let x = "URI="@ + quoted(i.uri) + seq![','];
    assert(attr_list(base) =~= x + ("BANDWIDTH="@ + dec(d.bandwidth as nat)));
    lemma_concat_front(
        x,
        "BANDWIDTH="@ + dec(d.bandwidth as nat),
        opt_attr("AVERAGE-BANDWIDTH"@, opt_dec(d.average_bandwidth)),
        opt_attr("CODECS"@, opt_quoted(d.codecs)),
        opt_attr("RESOLUTION"@, opt_resolution(d.resolution)),
        opt_attr("HDCP-LEVEL"@, opt_hdcp(d.hdcp_level)),
        opt_attr("VIDEO"@, opt_quoted(d.video)),
    );
    assert(body == attr_list(ps));
    lemma_attr_roundtrip(ps);
    lemma_values_for_push(e, u, ku);
    lemma_values_for_push(e.push(u), b, ku);
    lemma_values_for_push(e, u, kb);
    lemma_values_for_push(e.push(u), b, kb);
    lemma_values_for_push(e, u, "AVERAGE-BANDWIDTH"@);
    lemma_values_for_push(e.push(u), b, "AVERAGE-BANDWIDTH"@);
    lemma_values_for_push(e, u, "CODECS"@);
    lemma_values_for_push(e.push(u), b, "CODECS"@);
    lemma_values_for_push(e, u, "RESOLUTION"@);
    lemma_values_for_push(e.push(u), b, "RESOLUTION"@);
    lemma_values_for_push(e, u, "HDCP-LEVEL"@);
    lemma_values_for_push(e.push(u), b, "HDCP-LEVEL"@);
    lemma_values_for_push(e, u, "VIDEO"@);
    lemma_values_for_push(e.push(u), b, "VIDEO"@);
    lemma_stream_rest_read(base, d);
    assert(values_for(ps, ku) == values_for(base, ku));
    assert(values_for(ps, kb) == values_for(base, kb));
    assert(values_for(ps, kb) =~= seq![dec(d.bandwidth as nat)]);
    lemma_stream_read(ps, d);
    lemma_strip_quoted(i.uri);
    assert(values_for(ps, ku) =~= seq![quoted(i.uri)]);
    assert(values_for(ps, ku).last() == quoted(i.uri));
    let last_ok = !is_ws(body.last());
    assert(last_ok) by {
        lemma_stream_text_ends(d);
        assert(body.last() == stream_text(d).last());
    }
    lemma_after_tag("#EXT-X-I-FRAME-STREAM-INF:"@, body);
    assert(iframe_text(i) == "#EXT-X-I-FRAME-STREAM-INF:"@ + body);
}

/// Appending a sum of six texts is appending them one by one.
proof fn lemma_concat_front(
    x: Seq<char>,
    a: Seq<char>,
    b: Seq<char>,
    c: Seq<char>,
    d: Seq<char>,
    e: Seq<char>,
    f: Seq<char>,
)
    ensures
        x + (a + b + c + d + e + f) == x + a + b + c + d + e + f,
{
    assert(x + (a + b + c + d + e + f) =~= x + a + b + c + d + e + f);
}

/// The text of stream data is not empty and does not end with white space.
pub proof fn lemma_stream_text_ends(d: StreamView)
    ensures
        stream_text(d).len() > 0,
        !is_ws(stream_text(d).last()),
{
    reveal_strlit("BANDWIDTH=");
    lemma_stream_values_wf(d);
    let t0 = "BANDWIDTH="@ + dec(d.bandwidth as nat);
    let o1 = opt_attr("AVERAGE-BANDWIDTH"@, opt_dec(d.average_bandwidth));
    let o2 = opt_attr("CODECS"@, opt_quoted(d.codecs));
    let o3 = opt_attr("RESOLUTION"@, opt_resolution(d.resolution));
    let o4 = opt_attr("HDCP-LEVEL"@, opt_hdcp(d.hdcp_level));
    let o5 = opt_attr("VIDEO"@, opt_quoted(d.video));
    let t = stream_text(d);
    assert(t == t0 + o1 + o2 + o3 + o4 + o5);
    lemma_value_ends(dec(d.bandwidth as nat));
    assert(t0.last() == dec(d.bandwidth as nat).last());
    lemma_opt_attr_ends("AVERAGE-BANDWIDTH"@, opt_dec(d.average_bandwidth));
    lemma_opt_attr_ends("CODECS"@, opt_quoted(d.codecs));
    lemma_opt_attr_ends("RESOLUTION"@, opt_resolution(d.resolution));
    lemma_opt_attr_ends("HDCP-LEVEL"@, opt_hdcp(d.hdcp_level));
    lemma_opt_attr_ends("VIDEO"@, opt_quoted(d.video));
    if o5.len() > 0 {
        assert(t.last() == o5.last());
    } else if o4.len() > 0 {
        assert(t.last() == o4.last());
    } else if o3.len() > 0 {
        assert(t.last() == o3.last());
    } else if o2.len() > 0 {
        assert(t.last() == o2.last());
    } else if o1.len() > 0 {
        assert(t.last() == o1.last());
    } else {
        assert(t.last() == t0.last());
    }
}

/// A well-formed value that is not empty does not end with white space.
proof fn lemma_value_ends(v: Seq<char>)
    requires
        wf_value(v),
        v.len() > 0,
    ensures
        !is_ws(v.last()),
{
    lemma_trim_keeps_ends(v);
}

/// What an optional attribute adds ends with the end of its value.
proof fn lemma_opt_attr_ends(key: Seq<char>, t: Option<Seq<char>>)
    requires
        t matches Some(x) ==> wf_value(x),
    ensures
        t matches Some(x) ==> x.len() > 0 ==> opt_attr(key, t).last() == x.last() && !is_ws(x.last()),
        t matches Some(x) ==> x.len() == 0 ==> opt_attr(key, t).last() == '=',
{
    if let Some(x) = t {
        if x.len() > 0 {
            lemma_value_ends(x);
        }
    }
}

impl RequiredVersion for ExtXIFrameStreamInf {
    fn required_version(&self) -> (res: ProtocolVersion)
        ensures
            res == ProtocolVersion::V1,
    {
        ProtocolVersion::V1
    }
}

/// A builder for an [`ExtXIFrameStreamInf`] tag.
#[derive(Debug, Clone)]
pub struct ExtXIFrameStreamInfBuilder {
    pub uri: Option<String>,
    pub stream_data: StreamDataBuilder,
}

impl ExtXIFrameStreamInfBuilder {
    /// Sets the location of the I-frame media playlist.
    pub fn uri(self, value: &str) -> (res: ExtXIFrameStreamInfBuilder)
        ensures
            res.uri matches Some(u) && u@ == value@,
            res.stream_data == self.stream_data,
    {
        ExtXIFrameStreamInfBuilder { uri: Some(String::from_str(value)), ..self }
    }

    /// Sets the peak bandwidth.
    pub fn bandwidth(self, value: u64) -> (res: ExtXIFrameStreamInfBuilder)
        ensures
            res.stream_data@ == (crate::types::StreamBuilderView {
                bandwidth: Some(value),
                ..self.stream_data@
            }),
            res.uri == self.uri,
    {
        ExtXIFrameStreamInfBuilder { stream_data: self.stream_data.bandwidth(value), ..self }
    }

    /// Sets the average bandwidth.
    pub fn average_bandwidth(self, value: u64) -> (res: ExtXIFrameStreamInfBuilder)
        ensures
            res.stream_data@ == (crate::types::StreamBuilderView {
                average_bandwidth: Some(value),
                ..self.stream_data@
            }),
            res.uri == self.uri,
    {
        ExtXIFrameStreamInfBuilder {
            stream_data: self.stream_data.average_bandwidth(value),
            ..self
        }
    }

    /// Sets the codecs.
    pub fn codecs(self, value: &str) -> (res: ExtXIFrameStreamInfBuilder)
        ensures
            res.stream_data@ == (crate::types::StreamBuilderView {
                codecs: Some(value@),
                ..self.stream_data@
            }),
            res.uri == self.uri,
    {
        ExtXIFrameStreamInfBuilder { stream_data: self.stream_data.codecs(value), ..self }
    }

    /// Sets the resolution.
    pub fn resolution(self, width: usize, height: usize) -> (res: ExtXIFrameStreamInfBuilder)
        ensures
            res.stream_data@ == (crate::types::StreamBuilderView {
                resolution: Some(crate::types::Resolution { width, height }),
                ..self.stream_data@
            }),
            res.uri == self.uri,
    {
        ExtXIFrameStreamInfBuilder {
            stream_data: self.stream_data.resolution(width, height),
            ..self
        }
    }

    /// Sets the HDCP level.
    pub fn hdcp_level(self, value: HdcpLevel) -> (res: ExtXIFrameStreamInfBuilder)
        ensures
            res.stream_data@ == (crate::types::StreamBuilderView {
                hdcp_level: Some(value),
                ..self.stream_data@
            }),
            res.uri == self.uri,
    {
        ExtXIFrameStreamInfBuilder { stream_data: self.stream_data.hdcp_level(value), ..self }
    }

    /// Sets the group id of the video renditions.
    pub fn video(self, value: &str) -> (res: ExtXIFrameStreamInfBuilder)
        ensures
            res.stream_data@ == (crate::types::StreamBuilderView {
                video: Some(value@),
                ..self.stream_data@
            }),
            res.uri == self.uri,
    {
        ExtXIFrameStreamInfBuilder { stream_data: self.stream_data.video(value), ..self }
    }

    /// Builds the tag: the location and the bandwidth are required.
    pub fn build(self) -> (res: Result<ExtXIFrameStreamInf, Error>)
        ensures
            self.uri is None ==> (res matches Err(Error::MissingValue { value }) && value@
                == "frame rate"@),
            self.uri is Some && self.stream_data@.bandwidth is None ==> res is Err,
            self.uri matches Some(u) ==> (self.stream_data@.bandwidth matches Some(b) ==> (
            res matches Ok(t) && t@ == (IFrameView {
                uri: u@,
                stream: StreamView {
                    bandwidth: b,
                    average_bandwidth: self.stream_data@.average_bandwidth,
                    codecs: self.stream_data@.codecs,
                    resolution: self.stream_data@.resolution,
                    hdcp_level: self.stream_data@.hdcp_level,
                    video: self.stream_data@.video,
                },
            }))),
    {
        let uri = match self.uri {
            Some(u) => u,
            None => {
                return Err(Error::MissingValue { value: String::from_str("frame rate") });
            },
        };
        let stream_data = match self.stream_data.build() {
            Ok(d) => d,
            Err(m) => {
                return Err(Error::Custom(m));
            },
        };
        Ok(ExtXIFrameStreamInf { uri, stream_data })
    }
}

} // verus!
