use vstd::prelude::*;

use crate::attribute::{
    attr_pairs, char_views, pair_views, pairs_of, values_for, values_of,
};
use crate::error::Error;
use crate::tags::{
    closed_captions_value, extra_text, iframe_reads_back, iframe_text, lemma_iframe_roundtrip,
    lemma_stream_inf_lines, lemma_two_lines, line_after, line_of, opt_cc, second_line,
    stream_inf_extra, stream_inf_of_pairs, stream_inf_reads_back, stream_inf_text,
    write_stream_inf_extra, ExtXMedia, IFrameView, MediaView, StreamInfView,
};
use crate::text::{
    after_tag, chars_of, equals_chars, equals_str, lemma_after_tag, lemma_strip_quoted,
    lemma_trim_id, lemma_trim_keeps_ends, push_quoted_string, push_str, push_string, quoted,
    starts_with, string_of, strip_quotes, strip_tag, trim, unquote,
};
use crate::traits::RequiredVersion;
use crate::types::{
    opt_view, stream_of_pairs, stream_text, ClosedCaptions, MediaType, ProtocolVersion, StreamData,
    StreamView, UFloat,
};

verus! {

/// A variant stream, taken by its parts.
pub enum VariantView {
    /// An `#EXT-X-I-FRAME-STREAM-INF` tag.
    IFrame(IFrameView),
    /// An `#EXT-X-STREAM-INF` tag and its location.
    StreamInf(StreamInfView),
}

/// A variant stream of a master playlist: an `#EXT-X-I-FRAME-STREAM-INF` tag, or an
/// `#EXT-X-STREAM-INF` tag with the location of its media playlist.
#[derive(Debug, Clone, PartialEq, Eq, PartialOrd, Ord, Hash)]
pub enum VariantStream {
    /// A media playlist of the I-frames of a variant stream.
    ExtXIFrame { uri: String, stream_data: StreamData },
    /// A variant stream.
    ExtXStreamInf {
        uri: String,
        frame_rate: Option<UFloat>,
        audio: Option<String>,
        subtitles: Option<String>,
        closed_captions: Option<ClosedCaptions>,
        stream_data: StreamData,
    },
}

impl View for VariantStream {
    type V = VariantView;

    open spec fn view(&self) -> VariantView {
        match self {
            VariantStream::ExtXIFrame { uri, stream_data } => VariantView::IFrame(
                IFrameView { uri: uri@, stream: stream_data@ },
            ),
            VariantStream::ExtXStreamInf {
                uri,
                frame_rate,
                audio,
                subtitles,
                closed_captions,
                stream_data,
            } => VariantView::StreamInf(
                StreamInfView {
                    uri: uri@,
                    frame_rate: *frame_rate,
                    audio: opt_view(*audio),
                    subtitles: opt_view(*subtitles),
                    closed_captions: opt_cc(*closed_captions),
                    stream: stream_data@,
                },
            ),
        }
    }
}

/// Whether the optional group `g` is `group`.
pub open spec fn is_group(g: Option<Seq<char>>, group: Seq<char>) -> bool {
    g == Some(group)
}

/// Whether the variant stream `v` uses the rendition `m`: its group for the type of
/// the rendition is the group of the rendition.
pub open spec fn associated(v: VariantView, m: MediaView) -> bool {
    match v {
        VariantView::IFrame(i) => m.media_type == MediaType::Video && is_group(
            i.stream.video,
            m.group_id,
        ),
        VariantView::StreamInf(s) => match m.media_type {
            MediaType::Audio => is_group(s.audio, m.group_id),
            MediaType::Video => is_group(s.stream.video, m.group_id),
            MediaType::Subtitles => is_group(s.subtitles, m.group_id),
            MediaType::ClosedCaptions => match s.closed_captions {
                Some(Some(g)) => g == m.group_id,
                Some(None) => m.group_id == "NONE"@,
                None => false,
            },
        },
    }
}

/// The text of a variant stream.
pub open spec fn variant_text(v: VariantView) -> Seq<char> {
    match v {
        VariantView::IFrame(i) => iframe_text(i),
        VariantView::StreamInf(s) => stream_inf_text(s),
    }
}

/// The first value of key `k` in `ps`, without its double quotes.
pub open spec fn first_quoted(ps: Seq<(Seq<char>, Seq<char>)>, k: Seq<char>) -> Option<Seq<char>> {
    let v = values_for(ps, k);
    if v.len() == 0 {
        None
    } else {
        Some(strip_quotes(v[0]))
    }
}

/// The variant stream that the text `s` holds: an I-frame tag (whose first `URI` is its
/// location), or a stream tag followed by a line with its location.
pub open spec fn variant_of_text(s: Seq<char>) -> Option<VariantView> {
    match after_tag(s, "#EXT-X-I-FRAME-STREAM-INF:"@) {
        Some(r) => match first_quoted(attr_pairs(r), "URI"@) {
            Some(u) => match stream_of_pairs(attr_pairs(r)) {
                Some(d) => Some(VariantView::IFrame(IFrameView { uri: u, stream: d })),
                None => None,
            },
            None => None,
        },
        None => match after_tag(s, "#EXT-X-STREAM-INF:"@) {
            Some(r) => if r.len() == 0 {
                None
            } else {
                match second_line(r) {
                    Some(u) => match stream_inf_of_pairs(attr_pairs(line_of(r)), u) {
                        Some(x) => Some(VariantView::StreamInf(x)),
                        None => None,
                    },
                    None => None,
                }
            },
            None => None,
        },
    }
}

/// Variant streams whose text reads back as themselves.
pub open spec fn variant_reads_back(v: VariantView) -> bool {
    match v {
        VariantView::IFrame(i) => iframe_reads_back(i),
        VariantView::StreamInf(s) => stream_inf_reads_back(s),
    }
}

/// Reading the text of a variant stream gives the variant stream back, when it reads
/// back as itself.
pub proof fn lemma_variant_roundtrip(v: VariantView)
    requires
        variant_reads_back(v),
    ensures
        variant_of_text(variant_text(v)) == Some(v),
{
    reveal_strlit("#EXT-X-I-FRAME-STREAM-INF:");
    reveal_strlit("#EXT-X-STREAM-INF:");
    match v {
        VariantView::IFrame(i) => {
            lemma_iframe_roundtrip(i);
            lemma_strip_quoted(i.uri);
        },
        VariantView::StreamInf(x) => {
            let p = "#EXT-X-STREAM-INF:"@;
            let q = "#EXT-X-I-FRAME-STREAM-INF:"@;
            let a = stream_text(x.stream) + stream_inf_extra(x);
            let r = a + seq!['\n'] + x.uri;
            let t = stream_inf_text(x);
            lemma_stream_inf_lines(x);
            lemma_trim_keeps_ends(x.uri);
            lemma_two_lines(a, x.uri);
            assert(t == p + r);
            assert(r.last() == x.uri.last());
            lemma_after_tag(p, r);
            lemma_trim_id(t);
            assert(!starts_with(trim(t), q)) by {
                if starts_with(t, q) {
                    assert(t.take(q.len() as int)[7] == q[7]);
                    assert(t[7] == p[7]);
                }
            }
        },
    }
}

/// Whether the optional string `g` is `group`.
fn same_group(g: Option<&String>, group: &String) -> (res: bool)
    ensures
        res == is_group(
            match g {
                Some(s) => Some(s@),
                None => None,
            },
            group@,
        ),
{
    match g {
        Some(s) => equals_chars(&chars_of(s.as_str()), &chars_of(group.as_str())),
        None => false,
    }
}

impl VariantStream {
    /// Whether this stream uses the rendition `media`.
    pub fn is_associated(&self, media: &ExtXMedia) -> (res: bool)
        ensures
            res == associated(self@, media@),
    {
        let group = media.group_id();
        match self {
            VariantStream::ExtXIFrame { stream_data, .. } => {
                match media.media_type() {
                    MediaType::Video => same_group(stream_data.video(), group),
                    _ => false,
                }
            },
            VariantStream::ExtXStreamInf {
                audio,
                subtitles,
                closed_captions,
                stream_data,
                ..
            } => match media.media_type() {
                MediaType::Audio => same_group(audio.as_ref(), group),
                MediaType::Video => same_group(stream_data.video(), group),
                MediaType::Subtitles => same_group(subtitles.as_ref(), group),
                MediaType::ClosedCaptions => match closed_captions {
                    Some(c) => c.matches_group(group),
                    None => false,
                },
            },
        }
    }

    /// The stream itself: it owns all its data already.
    pub fn into_owned(self) -> (res: VariantStream)
        ensures
            res@ == self@,
    {
        self
    }

    /// The data of the stream.
    pub fn stream_data(&self) -> (res: &StreamData)
        ensures
            res@ == match self@ {
                VariantView::IFrame(i) => i.stream,
                VariantView::StreamInf(s) => s.stream,
            },
    {
        match self {
            VariantStream::ExtXIFrame { stream_data, .. } => stream_data,
            VariantStream::ExtXStreamInf { stream_data, .. } => stream_data,
        }
    }

    /// A variant stream needs protocol version 1.
    pub fn required_version(&self) -> (res: ProtocolVersion)
        ensures
            res == ProtocolVersion::V1,
    {
        ProtocolVersion::V1
    }

    /// The protocol version with which the attributes of the stream were introduced.
    pub fn introduced_version(&self) -> (res: ProtocolVersion)
        ensures
            res == match self@ {
                VariantView::IFrame(i) => if i.stream.video is Some {
                    ProtocolVersion::V4
                } else {
                    ProtocolVersion::V1
                },
                VariantView::StreamInf(s) => if s.stream.video is Some || s.audio is Some
                    || s.subtitles is Some {
                    ProtocolVersion::V4
                } else {
                    ProtocolVersion::V1
                },
            },
    {
        match self {
            VariantStream::ExtXIFrame { stream_data, .. } => stream_data.introduced_version(),
            VariantStream::ExtXStreamInf { audio, subtitles, stream_data, .. } => {
                match stream_data.introduced_version() {
                    ProtocolVersion::V4 => ProtocolVersion::V4,
                    _ => if audio.is_some() || subtitles.is_some() {
                        ProtocolVersion::V4
                    } else {
                        ProtocolVersion::V1
                    },
                }
            },
        }
    }

    /// The text of the stream.
    pub open spec fn spec_to_string(self) -> Seq<char> {
        variant_text(self@)
    }

    /// Appends the text of the stream to `out`.
    pub fn write(&self, out: &mut Vec<char>)
        ensures
            final(out)@ == old(out)@ + self.spec_to_string(),
    {
        let ghost start = out@;
        match self {
            VariantStream::ExtXIFrame { uri, stream_data } => {
                push_str(out, "#EXT-X-I-FRAME-STREAM-INF:");
                push_str(out, "URI=");
                push_quoted_string(out, uri);
                out.push(',');
                stream_data.write(out);
                assert(out@ =~= start + iframe_text(IFrameView { uri: uri@, stream: stream_data@ }));
            },
            VariantStream::ExtXStreamInf {
                uri,
                frame_rate,
                audio,
                subtitles,
                closed_captions,
                stream_data,
            } => {
                push_str(out, "#EXT-X-STREAM-INF:");
                stream_data.write(out);
                write_stream_inf_extra(out, *frame_rate, audio, subtitles, closed_captions);
                out.push('\n');
                push_string(out, uri);
                assert(out@ =~= start + stream_inf_text(
                    StreamInfView {
                        uri: uri@,
                        frame_rate: *frame_rate,
                        audio: opt_view(*audio),
                        subtitles: opt_view(*subtitles),
                        closed_captions: opt_cc(*closed_captions),
                        stream: stream_data@,
                    },
                ));
            },
        }
    }

    /// The text of the stream.
    pub fn to_string(&self) -> (res: String)
        ensures
            res@ == self.spec_to_string(),
    {
        let mut out = Vec::new();
        self.write(&mut out);
        string_of(&out)
    }

    /// Parses a variant stream from the characters of its text.
    pub fn parse_chars(v: &Vec<char>) -> (res: Result<VariantStream, Error>)
        ensures
            res is Ok <==> variant_of_text(v@) is Some,
            res matches Ok(x) ==> variant_of_text(v@) == Some(x@),
    {
        match strip_tag(v, "#EXT-X-I-FRAME-STREAM-INF:") {
            Some(r) => {
                let pairs = pairs_of(&r);
                let vals = values_of(&pairs, "URI");
                if vals.len() == 0 {
                    return Err(Error::MissingValue { value: String::from_str("URI") });
                }
                assert(char_views(vals@)[0] == vals@[0]@);
                let uri = string_of(&unquote(&vals[0]));
                let stream_data = StreamData::from_pairs(&pairs)?;
                Ok(VariantStream::ExtXIFrame { uri, stream_data })
            },
            None => match strip_tag(v, "#EXT-X-STREAM-INF:") {
                Some(r) => {
                    if r.len() == 0 {
                        return Err(Error::MissingValue { value: String::from_str("first_line") });
                    }
                    let first = crate::tags::first_line(&r);
                    let uri = match line_after(&r) {
                        Some(u) => u,
                        None => {
                            return Err(Error::MissingValue { value: String::from_str("URI") });
                        },
                    };
                    let x = crate::tags::ExtXStreamInf::from_parts(&first, &uri)?;
                    let res = x.into_variant();
                    Ok(res)
                },
                None => {
                    let mut m: Vec<char> = Vec::new();
                    push_str(
                        &mut m,
                        "invalid start of input, expected either \"#EXT-X-I-FRAME-STREAM-INF:\" or \"#EXT-X-STREAM-INF:\"",
                    );
                    Err(Error::Custom(string_of(&m)))
                },
            },
        }
    }

    /// Parses a variant stream.
    pub fn try_from(input: &str) -> (res: Result<VariantStream, Error>)
        ensures
            res is Ok <==> variant_of_text(input@) is Some,
            res matches Ok(x) ==> variant_of_text(input@) == Some(x@),
    {
        Self::parse_chars(&chars_of(input))
    }
}

impl crate::tags::ExtXStreamInf {
    /// The variant stream with the parts of this tag.
    pub fn into_variant(self) -> (res: VariantStream)
        ensures
            res@ == VariantView::StreamInf(self@),
    {
        let (uri, frame_rate, audio, subtitles, closed_captions, stream_data) = self.into_parts();
        VariantStream::ExtXStreamInf {
            uri,
            frame_rate,
            audio,
            subtitles,
            closed_captions,
            stream_data,
        }
    }
}

impl crate::tags::ExtXIFrameStreamInf {
    /// The variant stream with the parts of this tag.
    pub fn into_variant(self) -> (res: VariantStream)
        ensures
            res@ == VariantView::IFrame(self@),
    {
        let (uri, stream_data) = self.into_parts();
        VariantStream::ExtXIFrame { uri, stream_data }
    }
}

impl RequiredVersion for VariantStream {
    fn required_version(&self) -> (res: ProtocolVersion)
        ensures
            res == ProtocolVersion::V1,
    {
        ProtocolVersion::V1
    }
}

} // verus!
