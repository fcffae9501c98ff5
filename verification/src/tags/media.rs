use vstd::prelude::*;

use crate::attribute::{
    attr_list, attr_ok, attr_pairs, attr_val, lemma_attr_roundtrip, lemma_opt_push_text, pair_chunk,
    lemma_opt_push_values, lemma_opt_push_wf, opt_val,
    lemma_plain_key, lemma_plain_value, lemma_quoted_wf_value, lemma_values_for_push, opt_push,
    lemma_attr_list_no_lf, lemma_pairs_no_lf_opt_push, lemma_pairs_no_lf_push, pairs_no_lf,
    lemma_wf_pairs_push, pair_text, pair_views, pairs_of, parse_attr, quoted_attr, quoted_value,
    values_for, wf_pairs, wf_value,
    AttrValue, Quoted,
};
use crate::error::Error;
use crate::text::{
    after_tag, chars_of, expect_tag, is_digit, is_ws, lemma_after_tag, lemma_dec,
    lemma_no_lf_concat, lemma_quoted_no_lf, lemma_trim_id, no_lf, plain_opt, starts_with, trim,
    lemma_strip_quoted, lemma_strip_quotes_id,
    push_quoted, push_quoted_string, push_str, quoted, string_of, strip_quotes,
};
use crate::traits::RequiredVersion;
use crate::types::{
    lemma_channels_roundtrip, lemma_in_stream_id_plain, lemma_in_stream_id_roundtrip,
    lemma_media_type_roundtrip, opt_view, Channels, InStreamId, MediaType, ProtocolVersion,
};

verus! {

/// The parts of an `#EXT-X-MEDIA` tag, with its text fields taken by their characters.
pub struct MediaView {
    pub media_type: MediaType,
    pub uri: Option<Seq<char>>,
    pub group_id: Seq<char>,
    pub language: Option<Seq<char>>,
    pub assoc_language: Option<Seq<char>>,
    pub name: Seq<char>,
    pub is_default: bool,
    pub is_autoselect: bool,
    pub is_forced: bool,
    pub instream_id: Option<InStreamId>,
    pub characteristics: Option<Seq<char>>,
    pub channels: Option<Channels>,
}

/// The parts of an `#EXT-X-MEDIA` builder: each may still be unset.
pub struct MediaBuilderView {
    pub media_type: Option<MediaType>,
    pub uri: Option<Seq<char>>,
    pub group_id: Option<Seq<char>>,
    pub language: Option<Seq<char>>,
    pub assoc_language: Option<Seq<char>>,
    pub name: Option<Seq<char>>,
    pub is_default: Option<bool>,
    pub is_autoselect: Option<bool>,
    pub is_forced: Option<bool>,
    pub instream_id: Option<InStreamId>,
    pub characteristics: Option<Seq<char>>,
    pub channels: Option<Channels>,
}

/// The `#EXT-X-MEDIA` tag: an alternative rendition of the content (RFC 8216,
/// section 4.3.4.1).
#[derive(Debug, Clone, PartialEq, Eq, PartialOrd, Ord, Hash)]
pub struct ExtXMedia {
    media_type: MediaType,
    uri: Option<String>,
    group_id: String,
    language: Option<String>,
    assoc_language: Option<String>,
    name: String,
    is_default: bool,
    is_autoselect: bool,
    is_forced: bool,
    instream_id: Option<InStreamId>,
    characteristics: Option<String>,
    channels: Option<Channels>,
}

impl View for ExtXMedia {
    type V = MediaView;

    closed spec fn view(&self) -> MediaView {
        MediaView {
            media_type: self.media_type,
            uri: opt_view(self.uri),
            group_id: self.group_id@,
            language: opt_view(self.language),
            assoc_language: opt_view(self.assoc_language),
            name: self.name@,
            is_default: self.is_default,
            is_autoselect: self.is_autoselect,
            is_forced: self.is_forced,
            instream_id: self.instream_id,
            characteristics: opt_view(self.characteristics),
            channels: self.channels,
        }
    }
}

/// The debug text of an optional flag of a builder.
pub open spec fn flag_debug(b: Option<bool>) -> Seq<char> {
    match b {
        Some(true) => "Some(true)"@,
        Some(false) => "Some(false)"@,
        None => "None"@,
    }
}

/// What building an `#EXT-X-MEDIA` tag from `b` gives: the tag, or the message of why
/// it is not valid.
pub open spec fn media_build(b: MediaBuilderView) -> Result<MediaView, Seq<char>> {
    match b.media_type {
        None => Err("missing attribute: \"MEDIA-TYPE\""@),
        Some(t) => if t == MediaType::Subtitles && b.uri is None {
            Err("missing attribute: \"URI\""@)
        } else if t == MediaType::ClosedCaptions && b.uri is Some {
            Err("unexpected attribute: \"URI\""@)
        } else if t == MediaType::ClosedCaptions && b.instream_id is None {
            Err("missing attribute: \"INSTREAM-ID\""@)
        } else if t != MediaType::ClosedCaptions && b.instream_id is Some {
            Err("unexpected attribute: \"INSTREAM-ID\""@)
        } else if b.is_default == Some(true) && b.is_autoselect != Some(true) {
            Err(
                "If `DEFAULT` is true, `AUTOSELECT` has to be true too, Default: "@ + flag_debug(
                    b.is_default,
                ) + ", Autoselect: "@ + flag_debug(b.is_autoselect) + "!"@,
            )
        } else if t != MediaType::Subtitles && b.is_forced is Some {
            Err("invalid input"@)
        } else if b.group_id is None {
            Err("`group_id` must be initialized"@)
        } else if b.name is None {
            Err("`name` must be initialized"@)
        } else {
            Ok(
                MediaView {
                    media_type: t,
                    uri: b.uri,
                    group_id: b.group_id.unwrap(),
                    language: b.language,
                    assoc_language: b.assoc_language,
                    name: b.name.unwrap(),
                    is_default: b.is_default == Some(true),
                    is_autoselect: b.is_autoselect == Some(true),
                    is_forced: b.is_forced == Some(true),
                    instream_id: b.instream_id,
                    characteristics: b.characteristics,
                    channels: b.channels,
                },
            )
        },
    }
}

/// The values of the attribute list `ps` that are read as names, flags or numbers can
/// all be read.
pub open spec fn media_attrs_ok(ps: Seq<(Seq<char>, Seq<char>)>) -> bool {
    &&& attr_ok::<MediaType>(ps, "TYPE"@)
    &&& attr_ok::<bool>(ps, "DEFAULT"@)
    &&& attr_ok::<bool>(ps, "AUTOSELECT"@)
    &&& attr_ok::<bool>(ps, "FORCED"@)
    &&& attr_ok::<Quoted<InStreamId>>(ps, "INSTREAM-ID"@)
    &&& attr_ok::<Quoted<Channels>>(ps, "CHANNELS"@)
}

/// The builder that the attribute list `ps` fills; a later attribute overrides an
/// earlier one and unknown attributes are ignored.
pub open spec fn media_builder_of_pairs(ps: Seq<(Seq<char>, Seq<char>)>) -> MediaBuilderView {
    MediaBuilderView {
        media_type: attr_val::<MediaType>(ps, "TYPE"@),
        uri: quoted_attr(ps, "URI"@),
        group_id: quoted_attr(ps, "GROUP-ID"@),
        language: quoted_attr(ps, "LANGUAGE"@),
        assoc_language: quoted_attr(ps, "ASSOC-LANGUAGE"@),
        name: quoted_attr(ps, "NAME"@),
        is_default: attr_val::<bool>(ps, "DEFAULT"@),
        is_autoselect: attr_val::<bool>(ps, "AUTOSELECT"@),
        is_forced: attr_val::<bool>(ps, "FORCED"@),
        instream_id: match attr_val::<Quoted<InStreamId>>(ps, "INSTREAM-ID"@) {
            Some(q) => Some(q.0),
            None => None,
        },
        characteristics: quoted_attr(ps, "CHARACTERISTICS"@),
        channels: match attr_val::<Quoted<Channels>>(ps, "CHANNELS"@) {
            Some(q) => Some(q.0),
            None => None,
        },
    }
}

/// The tag that the attribute list `ps` describes.
pub open spec fn media_of_pairs(ps: Seq<(Seq<char>, Seq<char>)>) -> Option<MediaView> {
    if media_attrs_ok(ps) {
        match media_build(media_builder_of_pairs(ps)) {
            Ok(m) => Some(m),
            Err(_) => None,
        }
    } else {
        None
    }
}

/// The error that reading the line `s` as an `#EXT-X-MEDIA` tag gives, where it is
/// determined by the checks of the tag itself: a line without the tag, or, when every
/// value can be read, the message of the builder that the attributes fill.
pub open spec fn media_error(s: Seq<char>, res: Result<ExtXMedia, Error>) -> bool {
    match after_tag(s, "#EXT-X-MEDIA:"@) {
        None => res matches Err(Error::MissingTag { tag, input }) && tag@ == "#EXT-X-MEDIA:"@
            && input@ == s,
        Some(r) => media_attrs_ok(attr_pairs(r)) ==> (media_build(
            media_builder_of_pairs(attr_pairs(r)),
        ) matches Err(msg) ==> (res matches Err(Error::Custom(m)) && m@ == msg)),
    }
}

/// `,KEY=` and the quoted text, or nothing.
pub open spec fn opt_quoted_attr(key: Seq<char>, v: Option<Seq<char>>) -> Seq<char> {
    match v {
        Some(x) => seq![','] + key + seq!['='] + quoted(x),
        None => seq![],
    }
}

/// `,KEY=YES` when the flag is set.
pub open spec fn flag_attr(key: Seq<char>, b: bool) -> Seq<char> {
    if b {
        seq![','] + key + "=YES"@
    } else {
        seq![]
    }
}

/// The attributes of an `#EXT-X-MEDIA` tag up to its name.
pub open spec fn media_head(m: MediaView) -> Seq<char> {
    "TYPE="@ + m.media_type.name() + opt_quoted_attr("URI"@, m.uri) + opt_quoted_attr(
        "GROUP-ID"@,
        Some(m.group_id),
    ) + opt_quoted_attr("LANGUAGE"@, m.language) + opt_quoted_attr(
        "ASSOC-LANGUAGE"@,
        m.assoc_language,
    ) + opt_quoted_attr("NAME"@, Some(m.name))
}

/// The flags of an `#EXT-X-MEDIA` tag.
pub open spec fn media_flags(m: MediaView) -> Seq<char> {
    flag_attr("DEFAULT"@, m.is_default) + flag_attr("AUTOSELECT"@, m.is_autoselect) + flag_attr(
        "FORCED"@,
        m.is_forced,
    )
}

/// The attributes of an `#EXT-X-MEDIA` tag after its flags.
pub open spec fn media_tail(m: MediaView) -> Seq<char> {
    opt_quoted_attr(
        "INSTREAM-ID"@,
        match m.instream_id {
            Some(i) => Some(i.name()),
            None => None,
        },
    ) + opt_quoted_attr("CHARACTERISTICS"@, m.characteristics) + opt_quoted_attr(
        "CHANNELS"@,
        match m.channels {
            Some(c) => Some(c.spec_to_string()),
            None => None,
        },
    )
}

/// The attribute list of an `#EXT-X-MEDIA` tag.
pub open spec fn media_text(m: MediaView) -> Seq<char> {
    media_head(m) + media_flags(m) + media_tail(m)
}

/// The protocol version that a rendition needs: 7 with a `SERVICE` in-stream id, else 1.
pub open spec fn media_version(m: MediaView) -> ProtocolVersion {
    match m.instream_id {
        None => ProtocolVersion::V1,
        Some(i) => if i == InStreamId::Cc1 || i == InStreamId::Cc2 || i == InStreamId::Cc3 || i
            == InStreamId::Cc4 {
            ProtocolVersion::V1
        } else {
            ProtocolVersion::V7
        },
    }
}

/// Appends `,KEY=` and the quoted text of `value`, if there is one.
pub fn write_quoted_attr(out: &mut Vec<char>, key: &str, value: &Option<String>)
    ensures
        final(out)@ == old(out)@ + opt_quoted_attr(key@, opt_view(*value)),
{
    match value {
        Some(v) => {
            out.push(',');
            push_str(out, key);
            out.push('=');
            push_quoted_string(out, v);
            assert(final(out)@ =~= old(out)@ + opt_quoted_attr(key@, opt_view(*value)));
        },
        None => {},
    }
}

/// Appending four pieces one by one gives the text of the four pieces.
pub proof fn lemma_concat4(s: Seq<char>, a: Seq<char>, b: Seq<char>, c: Seq<char>, d: Seq<char>)
    ensures
        s + a + b + c + d == s + (a + (b + c + d)),
        a + (b + c + d) == a + (b + c + d),
{
    assert(s + a + b + c + d =~= s + (a + (b + c + d)));
}

/// Appends `,KEY=` and the quoted characters of `value`.
fn write_quoted_chars(out: &mut Vec<char>, key: &str, value: &Vec<char>)
    ensures
        final(out)@ == old(out)@ + opt_quoted_attr(key@, Some(value@)),
{
    out.push(',');
    push_str(out, key);
    out.push('=');
    push_quoted(out, value);
    assert(final(out)@ =~= old(out)@ + opt_quoted_attr(key@, Some(value@)));
}

/// Appends `,KEY=YES` when `b` is set.
fn write_flag(out: &mut Vec<char>, key: &str, b: bool)
    ensures
        final(out)@ == old(out)@ + flag_attr(key@, b),
{
    if b {
        out.push(',');
        push_str(out, key);
        push_str(out, "=YES");
        assert(final(out)@ =~= old(out)@ + flag_attr(key@, b));
    }
}

/// Appends a string of the characters `s`.
fn string_from_chars(s: &Vec<char>) -> (res: Option<String>)
    ensures
        opt_view(res) == Some(s@),
{
    Some(string_of(s))
}

impl ExtXMedia {
    /// A rendition of the given type, group and name, with nothing else set.
    pub fn new(media_type: MediaType, group_id: &str, name: &str) -> (res: ExtXMedia)
        ensures
            res@ == (MediaView {
                media_type,
                uri: None,
                group_id: group_id@,
                language: None,
                assoc_language: None,
                name: name@,
                is_default: false,
                is_autoselect: false,
                is_forced: false,
                instream_id: None,
                characteristics: None,
                channels: None,
            }),
    {
        ExtXMedia {
            media_type,
            uri: None,
            group_id: String::from_str(group_id),
            language: None,
            assoc_language: None,
            name: String::from_str(name),
            is_default: false,
            is_autoselect: false,
            is_forced: false,
            instream_id: None,
            characteristics: None,
            channels: None,
        }
    }

    /// A builder for a rendition.
    pub fn builder() -> (res: ExtXMediaBuilder)
        ensures
            res@ == (MediaBuilderView {
                media_type: None,
                uri: None,
                group_id: None,
                language: None,
                assoc_language: None,
                name: None,
                is_default: None,
                is_autoselect: None,
                is_forced: None,
                instream_id: None,
                characteristics: None,
                channels: None,
            }),
    {
        ExtXMediaBuilder {
            media_type: None,
            uri: None,
            group_id: None,
            language: None,
            assoc_language: None,
            name: None,
            is_default: None,
            is_autoselect: None,
            is_forced: None,
            instream_id: None,
            characteristics: None,
            channels: None,
        }
    }

    /// The type of the rendition.
    pub fn media_type(&self) -> (res: MediaType)
        ensures
            res == self@.media_type,
    {
        self.media_type
    }

    /// The location of the media playlist of the rendition.
    pub fn uri(&self) -> (res: &Option<String>)
        ensures
            opt_view(*res) == self@.uri,
    {
        &self.uri
    }

    /// The group of the rendition.
    pub fn group_id(&self) -> (res: &String)
        ensures
            res@ == self@.group_id,
    {
        &self.group_id
    }

    /// The language of the rendition.
    pub fn language(&self) -> (res: &Option<String>)
        ensures
            opt_view(*res) == self@.language,
    {
        &self.language
    }

    /// A language associated with the rendition.
    pub fn assoc_language(&self) -> (res: &Option<String>)
        ensures
            opt_view(*res) == self@.assoc_language,
    {
        &self.assoc_language
    }

    /// The name of the rendition.
    pub fn name(&self) -> (res: &String)
        ensures
            res@ == self@.name,
    {
        &self.name
    }

    /// Whether the client should play this rendition by default.
    pub fn is_default(&self) -> (res: bool)
        ensures
            res == self@.is_default,
    {
        self.is_default
    }

    /// Whether the client should play this rendition by default.
    pub fn default(&self) -> (res: bool)
        ensures
            res == self@.is_default,
    {
        self.is_default
    }

    /// Whether the client may choose this rendition by itself.
    pub fn is_autoselect(&self) -> (res: bool)
        ensures
            res == self@.is_autoselect,
    {
        self.is_autoselect
    }

    /// Whether the client may choose this rendition by itself.
    pub fn autoselect(&self) -> (res: bool)
        ensures
            res == self@.is_autoselect,
    {
        self.is_autoselect
    }

    /// Whether the rendition holds content that is considered essential to play.
    pub fn is_forced(&self) -> (res: bool)
        ensures
            res == self@.is_forced,
    {
        self.is_forced
    }

    /// Whether the rendition holds content that is considered essential to play.
    pub fn forced(&self) -> (res: bool)
        ensures
            res == self@.is_forced,
    {
        self.is_forced
    }

    /// The in-stream id of the closed captions.
    pub fn instream_id(&self) -> (res: Option<InStreamId>)
        ensures
            res == self@.instream_id,
    {
        self.instream_id
    }

    /// The characteristics of the rendition.
    pub fn characteristics(&self) -> (res: &Option<String>)
        ensures
            opt_view(*res) == self@.characteristics,
    {
        &self.characteristics
    }

    /// The audio channels of the rendition.
    pub fn channels(&self) -> (res: Option<Channels>)
        ensures
            res == self@.channels,
    {
        self.channels
    }

    /// The protocol version that the rendition needs.
    pub fn required_version(&self) -> (res: ProtocolVersion)
        ensures
            res == media_version(self@),
    {
        match self.instream_id {
            None => ProtocolVersion::V1,
            Some(InStreamId::Cc1) => ProtocolVersion::V1,
            Some(InStreamId::Cc2) => ProtocolVersion::V1,
            Some(InStreamId::Cc3) => ProtocolVersion::V1,
            Some(InStreamId::Cc4) => ProtocolVersion::V1,
            Some(_) => ProtocolVersion::V7,
        }
    }

    /// The protocol version that the rendition needs.
    pub fn requires_version(&self) -> (res: ProtocolVersion)
        ensures
            res == media_version(self@),
    {
        self.required_version()
    }

    /// The text of the tag.
    pub open spec fn spec_to_string(self) -> Seq<char> {
        "#EXT-X-MEDIA:"@ + media_text(self@)
    }

    /// The rendition that the line `s` holds.
    pub open spec fn spec_parse(s: Seq<char>) -> Option<MediaView> {
        match after_tag(s, "#EXT-X-MEDIA:"@) {
            Some(r) => media_of_pairs(attr_pairs(r)),
            None => None,
        }
    }

    /// Appends the attributes up to the name to `out`.
    fn write_head(&self, out: &mut Vec<char>)
        ensures
            final(out)@ == old(out)@ + media_head(self@),
    {
        let ghost start = out@;
        let ghost m = self@;
        push_str(out, "TYPE=");
        self.media_type.write(out);
        let ghost q0 = "TYPE="@ + m.media_type.name();
        assert(out@ =~= start + q0);
        write_quoted_attr(out, "URI", &self.uri);
        let ghost q1 = q0 + opt_quoted_attr("URI"@, m.uri);
        assert(out@ =~= start + q1);
        let gid = Some(self.group_id.clone());
        write_quoted_attr(out, "GROUP-ID", &gid);
        let ghost q2 = q1 + opt_quoted_attr("GROUP-ID"@, Some(m.group_id));
        assert(out@ =~= start + q2);
        write_quoted_attr(out, "LANGUAGE", &self.language);
        let ghost q3 = q2 + opt_quoted_attr("LANGUAGE"@, m.language);
        assert(out@ =~= start + q3);
        write_quoted_attr(out, "ASSOC-LANGUAGE", &self.assoc_language);
        let ghost q4 = q3 + opt_quoted_attr("ASSOC-LANGUAGE"@, m.assoc_language);
        assert(out@ =~= start + q4);
        let nm = Some(self.name.clone());
        write_quoted_attr(out, "NAME", &nm);
        let ghost q5 = q4 + opt_quoted_attr("NAME"@, Some(m.name));
        assert(out@ =~= start + q5);
    }

    /// Appends the flags to `out`.
    fn write_flags(&self, out: &mut Vec<char>)
        ensures
            final(out)@ == old(out)@ + media_flags(self@),
    {
        let ghost start = out@;
        write_flag(out, "DEFAULT", self.is_default);
        write_flag(out, "AUTOSELECT", self.is_autoselect);
        write_flag(out, "FORCED", self.is_forced);
        assert(out@ =~= start + media_flags(self@));
    }

    /// Appends the attributes after the flags to `out`.
    fn write_tail(&self, out: &mut Vec<char>)
        ensures
            final(out)@ == old(out)@ + media_tail(self@),
    {
        let ghost start = out@;
        let ghost m = self@;
        match self.instream_id {
            Some(i) => {
                let mut t: Vec<char> = Vec::new();
                i.write(&mut t);
                write_quoted_chars(out, "INSTREAM-ID", &t);
            },
            None => {},
        }
        let ghost q7 = opt_quoted_attr(
            "INSTREAM-ID"@,
            match m.instream_id {
                Some(i) => Some(i.name()),
                None => None,
            },
        );
        assert(out@ =~= start + q7);
        write_quoted_attr(out, "CHARACTERISTICS", &self.characteristics);
        let ghost q8 = q7 + opt_quoted_attr("CHARACTERISTICS"@, m.characteristics);
        assert(out@ =~= start + q8);
        match self.channels {
            Some(c) => {
                let mut t: Vec<char> = Vec::new();
                c.write(&mut t);
                write_quoted_chars(out, "CHANNELS", &t);
            },
            None => {},
        }
        assert(out@ =~= start + media_tail(m));
    }

    /// Appends the text of the tag to `out`.
    pub fn write(&self, out: &mut Vec<char>)
        ensures
            final(out)@ == old(out)@ + self.spec_to_string(),
    {
        let ghost start = out@;
        let ghost m = self@;
        push_str(out, "#EXT-X-MEDIA:");
        let ghost a = out@;
        self.write_head(out);
        let ghost b = out@;
        self.write_flags(out);
        let ghost c = out@;
        self.write_tail(out);
        proof {
            lemma_concat4(start, "#EXT-X-MEDIA:"@, media_head(m), media_flags(m), media_tail(m));
        }
    }

    /// The text of the tag.
    pub fn to_string(&self) -> (res: String)
        ensures
            res@ == self.spec_to_string(),
    {
        let mut out = Vec::new();
        self.write(&mut out);
        string_of(&out)
    }

    /// Parses the tag from the characters of a line.
    pub fn parse_chars(v: &Vec<char>) -> (res: Result<ExtXMedia, Error>)
        ensures
            res is Ok <==> Self::spec_parse(v@) is Some,
            res matches Ok(t) ==> Self::spec_parse(v@) == Some(t@),
            media_error(v@, res),
    {
        let r = expect_tag(v, "#EXT-X-MEDIA:")?;
        let pairs = pairs_of(&r);
        let media_type = parse_attr::<MediaType>(&pairs, "TYPE")?;
        let is_default = parse_attr::<bool>(&pairs, "DEFAULT")?;
        let is_autoselect = parse_attr::<bool>(&pairs, "AUTOSELECT")?;
        let is_forced = parse_attr::<bool>(&pairs, "FORCED")?;
        let instream_id = parse_attr::<Quoted<InStreamId>>(&pairs, "INSTREAM-ID")?;
        let channels = parse_attr::<Quoted<Channels>>(&pairs, "CHANNELS")?;
        let builder = ExtXMediaBuilder {
            media_type,
            uri: quoted_value(&pairs, "URI"),
            group_id: quoted_value(&pairs, "GROUP-ID"),
            language: quoted_value(&pairs, "LANGUAGE"),
            assoc_language: quoted_value(&pairs, "ASSOC-LANGUAGE"),
            name: quoted_value(&pairs, "NAME"),
            is_default,
            is_autoselect,
            is_forced,
            instream_id: match instream_id {
                Some(q) => Some(q.0),
                None => None,
            },
            characteristics: quoted_value(&pairs, "CHARACTERISTICS"),
            channels: match channels {
                Some(q) => Some(q.0),
                None => None,
            },
        };
        assert(builder@ == media_builder_of_pairs(pair_views(pairs@)));
        match builder.build() {
            Ok(m) => Ok(m),
            Err(msg) => Err(Error::Custom(msg)),
        }
    }

    /// Parses the tag.
    pub fn try_from(input: &str) -> (res: Result<ExtXMedia, Error>)
        ensures
            res is Ok <==> Self::spec_parse(input@) is Some,
            res matches Ok(t) ==> Self::spec_parse(input@) == Some(t@),
            media_error(input@, res),
    {
        Self::parse_chars(&chars_of(input))
    }
}

/// The text of an optional value between double quotes.
pub open spec fn quoted_opt(v: Option<Seq<char>>) -> Option<Seq<char>> {
    match v {
        Some(x) => Some(quoted(x)),
        None => None,
    }
}

/// `YES` when the flag is set.
pub open spec fn yes_opt(b: bool) -> Option<Seq<char>> {
    if b {
        Some("YES"@)
    } else {
        None
    }
}

/// Renditions whose text reads back as themselves: valid as the builder requires, with
/// texts that hold no double quote, line feed or carriage return.
pub open spec fn media_reads_back(m: MediaView) -> bool {
    &&& (m.media_type == MediaType::Subtitles ==> m.uri is Some)
    &&& (m.media_type == MediaType::ClosedCaptions ==> m.uri is None && m.instream_id is Some)
    &&& (m.media_type != MediaType::ClosedCaptions ==> m.instream_id is None)
    &&& (m.is_default ==> m.is_autoselect)
    &&& (m.media_type != MediaType::Subtitles ==> !m.is_forced)
    &&& plain_opt(m.uri)
    &&& strip_quotes(m.group_id) == m.group_id
    &&& plain_opt(m.language)
    &&& plain_opt(m.assoc_language)
    &&& strip_quotes(m.name) == m.name
    &&& plain_opt(m.characteristics)
}

/// The name of the in-stream id of a rendition, if it has one.
pub open spec fn instream_name(m: MediaView) -> Option<Seq<char>> {
    match m.instream_id {
        Some(i) => Some(i.name()),
        None => None,
    }
}

/// The text of the channels of a rendition, if it has them.
pub open spec fn channels_text(m: MediaView) -> Option<Seq<char>> {
    match m.channels {
        Some(c) => Some(c.spec_to_string()),
        None => None,
    }
}

/// The attribute pairs of the rendition `m` up to its name.
spec fn media_head_pairs(m: MediaView) -> Seq<(Seq<char>, Seq<char>)> {
    let p0 = seq![("TYPE"@, m.media_type.name())];
    let p1 = opt_push(p0, "URI"@, quoted_opt(m.uri));
    let p2 = opt_push(p1, "GROUP-ID"@, Some(quoted(m.group_id)));
    let p3 = opt_push(p2, "LANGUAGE"@, quoted_opt(m.language));
    let p4 = opt_push(p3, "ASSOC-LANGUAGE"@, quoted_opt(m.assoc_language));
    opt_push(p4, "NAME"@, Some(quoted(m.name)))
}

/// The attribute pairs of the rendition `m` up to its flags.
spec fn media_flag_pairs(m: MediaView) -> Seq<(Seq<char>, Seq<char>)> {
    let p6 = opt_push(media_head_pairs(m), "DEFAULT"@, yes_opt(m.is_default));
    let p7 = opt_push(p6, "AUTOSELECT"@, yes_opt(m.is_autoselect));
    opt_push(p7, "FORCED"@, yes_opt(m.is_forced))
}

/// The attribute pairs that the text of the rendition `m` lists, in order.
spec fn media_pairs(m: MediaView) -> Seq<(Seq<char>, Seq<char>)> {
    let p9 = opt_push(media_flag_pairs(m), "INSTREAM-ID"@, quoted_opt(instream_name(m)));
    let p10 = opt_push(p9, "CHARACTERISTICS"@, quoted_opt(m.characteristics));
    opt_push(p10, "CHANNELS"@, quoted_opt(channels_text(m)))
}

/// The values that the pairs of the rendition `m` give to the attribute `k`.
spec fn media_values(m: MediaView, k: Seq<char>) -> Seq<Seq<char>> {
    opt_val("TYPE"@ == k, Some(m.media_type.name())) + opt_val("URI"@ == k, quoted_opt(m.uri))
        + opt_val("GROUP-ID"@ == k, Some(quoted(m.group_id))) + opt_val(
        "LANGUAGE"@ == k,
        quoted_opt(m.language),
    ) + opt_val("ASSOC-LANGUAGE"@ == k, quoted_opt(m.assoc_language)) + opt_val(
        "NAME"@ == k,
        Some(quoted(m.name)),
    ) + opt_val("DEFAULT"@ == k, yes_opt(m.is_default)) + opt_val(
        "AUTOSELECT"@ == k,
        yes_opt(m.is_autoselect),
    ) + opt_val("FORCED"@ == k, yes_opt(m.is_forced)) + opt_val(
        "INSTREAM-ID"@ == k,
        quoted_opt(instream_name(m)),
    ) + opt_val("CHARACTERISTICS"@ == k, quoted_opt(m.characteristics)) + opt_val(
        "CHANNELS"@ == k,
        quoted_opt(channels_text(m)),
    )
}

/// The names of the attributes of a rendition: each is told apart from the others by
/// its length and its first character.
proof fn lemma_media_keys()
    ensures
        "TYPE"@.len() == 4 && "TYPE"@[0] == 'T',
        "URI"@.len() == 3,
        "GROUP-ID"@.len() == 8 && "GROUP-ID"@[0] == 'G',
        "LANGUAGE"@.len() == 8 && "LANGUAGE"@[0] == 'L',
        "ASSOC-LANGUAGE"@.len() == 14,
        "NAME"@.len() == 4 && "NAME"@[0] == 'N',
        "DEFAULT"@.len() == 7,
        "AUTOSELECT"@.len() == 10,
        "FORCED"@.len() == 6,
        "INSTREAM-ID"@.len() == 11,
        "CHARACTERISTICS"@.len() == 15,
        "CHANNELS"@.len() == 8 && "CHANNELS"@[0] == 'C',
        forall|i: int|
            0 <= i < "TYPE"@.len() ==> 'A' <= #[trigger] "TYPE"@[i] <= 'Z' || "TYPE"@[i] == '-',
        forall|i: int|
            0 <= i < "URI"@.len() ==> 'A' <= #[trigger] "URI"@[i] <= 'Z' || "URI"@[i] == '-',
        forall|i: int|
            0 <= i < "GROUP-ID"@.len() ==> 'A' <= #[trigger] "GROUP-ID"@[i] <= 'Z' || "GROUP-ID"@[i]
                == '-',
        forall|i: int|
            0 <= i < "LANGUAGE"@.len() ==> 'A' <= #[trigger] "LANGUAGE"@[i] <= 'Z' || "LANGUAGE"@[i]
                == '-',
        forall|i: int|
            0 <= i < "ASSOC-LANGUAGE"@.len() ==> 'A' <= #[trigger] "ASSOC-LANGUAGE"@[i] <= 'Z'
                || "ASSOC-LANGUAGE"@[i] == '-',
        forall|i: int|
            0 <= i < "NAME"@.len() ==> 'A' <= #[trigger] "NAME"@[i] <= 'Z' || "NAME"@[i] == '-',
        forall|i: int|
            0 <= i < "DEFAULT"@.len() ==> 'A' <= #[trigger] "DEFAULT"@[i] <= 'Z' || "DEFAULT"@[i]
                == '-',
        forall|i: int|
            0 <= i < "AUTOSELECT"@.len() ==> 'A' <= #[trigger] "AUTOSELECT"@[i] <= 'Z'
                || "AUTOSELECT"@[i] == '-',
        forall|i: int|
            0 <= i < "FORCED"@.len() ==> 'A' <= #[trigger] "FORCED"@[i] <= 'Z' || "FORCED"@[i]
                == '-',
        forall|i: int|
            0 <= i < "INSTREAM-ID"@.len() ==> 'A' <= #[trigger] "INSTREAM-ID"@[i] <= 'Z'
                || "INSTREAM-ID"@[i] == '-',
        forall|i: int|
            0 <= i < "CHARACTERISTICS"@.len() ==> 'A' <= #[trigger] "CHARACTERISTICS"@[i] <= 'Z'
                || "CHARACTERISTICS"@[i] == '-',
        forall|i: int|
            0 <= i < "CHANNELS"@.len() ==> 'A' <= #[trigger] "CHANNELS"@[i] <= 'Z'
                || "CHANNELS"@[i] == '-',
{
    reveal_strlit("TYPE");
    reveal_strlit("URI");
    reveal_strlit("GROUP-ID");
    reveal_strlit("LANGUAGE");
    reveal_strlit("ASSOC-LANGUAGE");
    reveal_strlit("NAME");
    reveal_strlit("DEFAULT");
    reveal_strlit("AUTOSELECT");
    reveal_strlit("FORCED");
    reveal_strlit("INSTREAM-ID");
    reveal_strlit("CHARACTERISTICS");
    reveal_strlit("CHANNELS");
}

/// The values of an attribute in the pairs of a rendition up to its name.
proof fn lemma_media_head_values(m: MediaView, k: Seq<char>)
    ensures
        values_for(media_head_pairs(m), k) == opt_val("TYPE"@ == k, Some(m.media_type.name()))
            + opt_val("URI"@ == k, quoted_opt(m.uri)) + opt_val(
            "GROUP-ID"@ == k,
            Some(quoted(m.group_id)),
        ) + opt_val("LANGUAGE"@ == k, quoted_opt(m.language)) + opt_val(
            "ASSOC-LANGUAGE"@ == k,
            quoted_opt(m.assoc_language),
        ) + opt_val("NAME"@ == k, Some(quoted(m.name))),
{
    let p0 = seq![("TYPE"@, m.media_type.name())];
    let p1 = opt_push(p0, "URI"@, quoted_opt(m.uri));
    let p2 = opt_push(p1, "GROUP-ID"@, Some(quoted(m.group_id)));
    let p3 = opt_push(p2, "LANGUAGE"@, quoted_opt(m.language));
    let p4 = opt_push(p3, "ASSOC-LANGUAGE"@, quoted_opt(m.assoc_language));
    assert(p0 == Seq::<(Seq<char>, Seq<char>)>::empty().push(("TYPE"@, m.media_type.name())));
    lemma_values_for_push(Seq::empty(), ("TYPE"@, m.media_type.name()), k);
    assert(values_for(Seq::<(Seq<char>, Seq<char>)>::empty(), k) == Seq::<Seq<char>>::empty());
    assert(values_for(p0, k) =~= opt_val("TYPE"@ == k, Some(m.media_type.name())));
    lemma_opt_push_values(p0, "URI"@, quoted_opt(m.uri), k);
    lemma_opt_push_values(p1, "GROUP-ID"@, Some(quoted(m.group_id)), k);
    lemma_opt_push_values(p2, "LANGUAGE"@, quoted_opt(m.language), k);
    lemma_opt_push_values(p3, "ASSOC-LANGUAGE"@, quoted_opt(m.assoc_language), k);
    lemma_opt_push_values(p4, "NAME"@, Some(quoted(m.name)), k);
}

/// The values of an attribute in the pairs of a rendition.
proof fn lemma_media_values(m: MediaView, k: Seq<char>)
    ensures
        values_for(media_pairs(m), k) == media_values(m, k),
{
    let p5 = media_head_pairs(m);
    let p6 = opt_push(p5, "DEFAULT"@, yes_opt(m.is_default));
    let p7 = opt_push(p6, "AUTOSELECT"@, yes_opt(m.is_autoselect));
    let p8 = media_flag_pairs(m);
    let p9 = opt_push(p8, "INSTREAM-ID"@, quoted_opt(instream_name(m)));
    let p10 = opt_push(p9, "CHARACTERISTICS"@, quoted_opt(m.characteristics));
    lemma_media_head_values(m, k);
    lemma_opt_push_values(p5, "DEFAULT"@, yes_opt(m.is_default), k);
    lemma_opt_push_values(p6, "AUTOSELECT"@, yes_opt(m.is_autoselect), k);
    lemma_opt_push_values(p7, "FORCED"@, yes_opt(m.is_forced), k);
    lemma_opt_push_values(p8, "INSTREAM-ID"@, quoted_opt(instream_name(m)), k);
    lemma_opt_push_values(p9, "CHARACTERISTICS"@, quoted_opt(m.characteristics), k);
    lemma_opt_push_values(p10, "CHANNELS"@, quoted_opt(channels_text(m)), k);
}

/// The text that an optional quoted value adds to an attribute list.
proof fn lemma_quoted_chunk(key: Seq<char>, v: Option<Seq<char>>)
    ensures
        pair_chunk(key, quoted_opt(v)) == opt_quoted_attr(key, v),
{
    reveal(pair_chunk);
    if let Some(x) = v {
        assert(seq![','] + pair_text((key, quoted(x))) =~= opt_quoted_attr(key, v));
    }
}

/// The text that an optional flag adds to an attribute list.
proof fn lemma_flag_chunk(key: Seq<char>, b: bool)
    ensures
        pair_chunk(key, yes_opt(b)) == flag_attr(key, b),
{
    reveal(pair_chunk);
    reveal_strlit("=YES");
    reveal_strlit("YES");
    if b {
        assert(seq![','] + pair_text((key, "YES"@)) =~= flag_attr(key, b));
    }
}

/// The attributes of a rendition up to its name are the attribute list of its first
/// pairs.
proof fn lemma_media_head_pairs(m: MediaView)
    ensures
        attr_list(media_head_pairs(m)) == media_head(m),
        media_head_pairs(m).len() > 0,
{
    reveal_strlit("TYPE=");
    reveal_strlit("TYPE");
    let p0 = seq![("TYPE"@, m.media_type.name())];
    let p1 = opt_push(p0, "URI"@, quoted_opt(m.uri));
    let p2 = opt_push(p1, "GROUP-ID"@, Some(quoted(m.group_id)));
    let p3 = opt_push(p2, "LANGUAGE"@, quoted_opt(m.language));
    let p4 = opt_push(p3, "ASSOC-LANGUAGE"@, quoted_opt(m.assoc_language));
    assert(attr_list(p0) =~= "TYPE="@ + m.media_type.name());
    lemma_opt_push_text(p0, "URI"@, quoted_opt(m.uri));
    lemma_opt_push_text(p1, "GROUP-ID"@, Some(quoted(m.group_id)));
    lemma_opt_push_text(p2, "LANGUAGE"@, quoted_opt(m.language));
    lemma_opt_push_text(p3, "ASSOC-LANGUAGE"@, quoted_opt(m.assoc_language));
    lemma_opt_push_text(p4, "NAME"@, Some(quoted(m.name)));
    lemma_quoted_chunk("URI"@, m.uri);
    lemma_quoted_chunk("GROUP-ID"@, Some(m.group_id));
    lemma_quoted_chunk("LANGUAGE"@, m.language);
    lemma_quoted_chunk("ASSOC-LANGUAGE"@, m.assoc_language);
    lemma_quoted_chunk("NAME"@, Some(m.name));
}

/// The text of a rendition is the attribute list of its pairs.
proof fn lemma_media_text_pairs(m: MediaView)
    ensures
        media_text(m) == attr_list(media_pairs(m)),
{
    let p5 = media_head_pairs(m);
    let p6 = opt_push(p5, "DEFAULT"@, yes_opt(m.is_default));
    let p7 = opt_push(p6, "AUTOSELECT"@, yes_opt(m.is_autoselect));
    let p8 = media_flag_pairs(m);
    let p9 = opt_push(p8, "INSTREAM-ID"@, quoted_opt(instream_name(m)));
    let p10 = opt_push(p9, "CHARACTERISTICS"@, quoted_opt(m.characteristics));
    lemma_media_head_pairs(m);
    lemma_opt_push_text(p5, "DEFAULT"@, yes_opt(m.is_default));
    lemma_opt_push_text(p6, "AUTOSELECT"@, yes_opt(m.is_autoselect));
    lemma_opt_push_text(p7, "FORCED"@, yes_opt(m.is_forced));
    lemma_opt_push_text(p8, "INSTREAM-ID"@, quoted_opt(instream_name(m)));
    lemma_opt_push_text(p9, "CHARACTERISTICS"@, quoted_opt(m.characteristics));
    lemma_opt_push_text(p10, "CHANNELS"@, quoted_opt(channels_text(m)));
    lemma_flag_chunk("DEFAULT"@, m.is_default);
    lemma_flag_chunk("AUTOSELECT"@, m.is_autoselect);
    lemma_flag_chunk("FORCED"@, m.is_forced);
    lemma_quoted_chunk("INSTREAM-ID"@, instream_name(m));
    lemma_quoted_chunk("CHARACTERISTICS"@, m.characteristics);
    lemma_quoted_chunk("CHANNELS"@, channels_text(m));
    let h = media_head(m);
    lemma_concat3(
        h,
        flag_attr("DEFAULT"@, m.is_default),
        flag_attr("AUTOSELECT"@, m.is_autoselect),
        flag_attr("FORCED"@, m.is_forced),
    );
    lemma_concat3(
        h + media_flags(m),
        opt_quoted_attr("INSTREAM-ID"@, instream_name(m)),
        opt_quoted_attr("CHARACTERISTICS"@, m.characteristics),
        opt_quoted_attr("CHANNELS"@, channels_text(m)),
    );
}

/// Appending three pieces one by one is appending them together.
proof fn lemma_concat3(s: Seq<char>, a: Seq<char>, b: Seq<char>, c: Seq<char>)
    ensures
        s + a + b + c == s + (a + b + c),
{
    assert(s + a + b + c =~= s + (a + b + c));
}


/// The pairs of every rendition are well-formed.
proof fn lemma_media_pairs_wf(m: MediaView)
    ensures
        wf_pairs(media_pairs(m)),
{
    lemma_media_keys();
    lemma_plain_key("TYPE"@);
    lemma_plain_key("URI"@);
    lemma_plain_key("GROUP-ID"@);
    lemma_plain_key("LANGUAGE"@);
    lemma_plain_key("ASSOC-LANGUAGE"@);
    lemma_plain_key("NAME"@);
    lemma_plain_key("DEFAULT"@);
    lemma_plain_key("AUTOSELECT"@);
    lemma_plain_key("FORCED"@);
    lemma_plain_key("INSTREAM-ID"@);
    lemma_plain_key("CHARACTERISTICS"@);
    lemma_plain_key("CHANNELS"@);
    reveal_strlit("YES");
    reveal_strlit("AUDIO");
    reveal_strlit("VIDEO");
    reveal_strlit("SUBTITLES");
    reveal_strlit("CLOSED-CAPTIONS");
    lemma_plain_value("YES"@);
    lemma_plain_value(m.media_type.name());
    let e = Seq::<(Seq<char>, Seq<char>)>::empty();
    let p0 = seq![("TYPE"@, m.media_type.name())];
    assert(p0 == e.push(("TYPE"@, m.media_type.name())));
    lemma_wf_pairs_push(e, ("TYPE"@, m.media_type.name()));
    lemma_quoted_opt_wf(m.uri);
    lemma_quoted_wf_value(m.group_id);
    lemma_quoted_opt_wf(m.language);
    lemma_quoted_opt_wf(m.assoc_language);
    lemma_quoted_wf_value(m.name);
    lemma_quoted_opt_wf(instream_name(m));
    lemma_quoted_opt_wf(m.characteristics);
    lemma_quoted_opt_wf(channels_text(m));
    let p1 = opt_push(p0, "URI"@, quoted_opt(m.uri));
    let p2 = opt_push(p1, "GROUP-ID"@, Some(quoted(m.group_id)));
    let p3 = opt_push(p2, "LANGUAGE"@, quoted_opt(m.language));
    let p4 = opt_push(p3, "ASSOC-LANGUAGE"@, quoted_opt(m.assoc_language));
    let p5 = media_head_pairs(m);
    let p6 = opt_push(p5, "DEFAULT"@, yes_opt(m.is_default));
    let p7 = opt_push(p6, "AUTOSELECT"@, yes_opt(m.is_autoselect));
    let p8 = media_flag_pairs(m);
    let p9 = opt_push(p8, "INSTREAM-ID"@, quoted_opt(instream_name(m)));
    let p10 = opt_push(p9, "CHARACTERISTICS"@, quoted_opt(m.characteristics));
    lemma_opt_push_wf(p0, "URI"@, quoted_opt(m.uri));
    lemma_opt_push_wf(p1, "GROUP-ID"@, Some(quoted(m.group_id)));
    lemma_opt_push_wf(p2, "LANGUAGE"@, quoted_opt(m.language));
    lemma_opt_push_wf(p3, "ASSOC-LANGUAGE"@, quoted_opt(m.assoc_language));
    lemma_opt_push_wf(p4, "NAME"@, Some(quoted(m.name)));
    lemma_opt_push_wf(p5, "DEFAULT"@, yes_opt(m.is_default));
    lemma_opt_push_wf(p6, "AUTOSELECT"@, yes_opt(m.is_autoselect));
    lemma_opt_push_wf(p7, "FORCED"@, yes_opt(m.is_forced));
    lemma_opt_push_wf(p8, "INSTREAM-ID"@, quoted_opt(instream_name(m)));
    lemma_opt_push_wf(p9, "CHARACTERISTICS"@, quoted_opt(m.characteristics));
    lemma_opt_push_wf(p10, "CHANNELS"@, quoted_opt(channels_text(m)));
}

/// An optional value between double quotes reads back as itself.
proof fn lemma_quoted_opt_wf(v: Option<Seq<char>>)
    ensures
        quoted_opt(v) matches Some(x) ==> wf_value(x),
{
    if let Some(x) = v {
        lemma_quoted_wf_value(x);
    }
}

/// The value that the pairs of a rendition give to each of its attributes.
proof fn lemma_media_values_each(m: MediaView)
    ensures
        values_for(media_pairs(m), "TYPE"@) == opt_val(true, Some(m.media_type.name())),
        values_for(media_pairs(m), "URI"@) == opt_val(true, quoted_opt(m.uri)),
        values_for(media_pairs(m), "GROUP-ID"@) == opt_val(true, Some(quoted(m.group_id))),
        values_for(media_pairs(m), "LANGUAGE"@) == opt_val(true, quoted_opt(m.language)),
        values_for(media_pairs(m), "ASSOC-LANGUAGE"@) == opt_val(true, quoted_opt(m.assoc_language)),
        values_for(media_pairs(m), "NAME"@) == opt_val(true, Some(quoted(m.name))),
        values_for(media_pairs(m), "DEFAULT"@) == opt_val(true, yes_opt(m.is_default)),
        values_for(media_pairs(m), "AUTOSELECT"@) == opt_val(true, yes_opt(m.is_autoselect)),
        values_for(media_pairs(m), "FORCED"@) == opt_val(true, yes_opt(m.is_forced)),
        values_for(media_pairs(m), "INSTREAM-ID"@) == opt_val(true, quoted_opt(instream_name(m))),
        values_for(media_pairs(m), "CHARACTERISTICS"@) == opt_val(true, quoted_opt(m.characteristics)),
        values_for(media_pairs(m), "CHANNELS"@) == opt_val(true, quoted_opt(channels_text(m))),
{
    lemma_media_keys();
    lemma_media_values(m, "TYPE"@);
    assert(media_values(m, "TYPE"@) =~= opt_val(true, Some(m.media_type.name())));
    lemma_media_values(m, "URI"@);
    assert(media_values(m, "URI"@) =~= opt_val(true, quoted_opt(m.uri)));
    lemma_media_values(m, "GROUP-ID"@);
    assert(media_values(m, "GROUP-ID"@) =~= opt_val(true, Some(quoted(m.group_id))));
    lemma_media_values(m, "LANGUAGE"@);
    assert(media_values(m, "LANGUAGE"@) =~= opt_val(true, quoted_opt(m.language)));
    lemma_media_values(m, "ASSOC-LANGUAGE"@);
    assert(media_values(m, "ASSOC-LANGUAGE"@) =~= opt_val(true, quoted_opt(m.assoc_language)));
    lemma_media_values(m, "NAME"@);
    assert(media_values(m, "NAME"@) =~= opt_val(true, Some(quoted(m.name))));
    lemma_media_values(m, "DEFAULT"@);
    assert(media_values(m, "DEFAULT"@) =~= opt_val(true, yes_opt(m.is_default)));
    lemma_media_values(m, "AUTOSELECT"@);
    assert(media_values(m, "AUTOSELECT"@) =~= opt_val(true, yes_opt(m.is_autoselect)));
    lemma_media_values(m, "FORCED"@);
    assert(media_values(m, "FORCED"@) =~= opt_val(true, yes_opt(m.is_forced)));
    lemma_media_values(m, "INSTREAM-ID"@);
    assert(media_values(m, "INSTREAM-ID"@) =~= opt_val(true, quoted_opt(instream_name(m))));
    lemma_media_values(m, "CHARACTERISTICS"@);
    assert(media_values(m, "CHARACTERISTICS"@) =~= opt_val(true, quoted_opt(m.characteristics)));
    lemma_media_values(m, "CHANNELS"@);
    assert(media_values(m, "CHANNELS"@) =~= opt_val(true, quoted_opt(channels_text(m))));
}

/// Reading an optional quoted attribute gives the text back, when it holds no double
/// quote, line feed or carriage return.
proof fn lemma_quoted_opt_read(ps: Seq<(Seq<char>, Seq<char>)>, k: Seq<char>, v: Option<Seq<char>>)
    requires
        values_for(ps, k) == opt_val(true, quoted_opt(v)),
        plain_opt(v),
    ensures
        quoted_attr(ps, k) == v,
{
    if let Some(x) = v {
        lemma_strip_quoted(x);
        assert(values_for(ps, k).last() == quoted(x));
    }
}

/// Reading an optional flag gives `Some(true)` when it is set and nothing otherwise.
proof fn lemma_flag_read(ps: Seq<(Seq<char>, Seq<char>)>, k: Seq<char>, b: bool)
    requires
        values_for(ps, k) == opt_val(true, yes_opt(b)),
    ensures
        attr_ok::<bool>(ps, k),
        attr_val::<bool>(ps, k) == (if b {
            Some(true)
        } else {
            None
        }),
{
    reveal_strlit("YES");
    if b {
        assert(values_for(ps, k)[0] == "YES"@);
        assert(values_for(ps, k).last() == "YES"@);
    }
}

/// Reading the text of a rendition gives the rendition back, when it reads back as
/// itself.
pub proof fn lemma_media_roundtrip(m: MediaView)
    requires
        media_reads_back(m),
    ensures
        media_of_pairs(attr_pairs(media_text(m))) == Some(m),
{
    let ps = media_pairs(m);
    lemma_media_text_pairs(m);
    lemma_media_pairs_wf(m);
    lemma_attr_roundtrip(ps);
    lemma_media_values_each(m);
    lemma_media_type_roundtrip(m.media_type);
    assert(values_for(ps, "TYPE"@)[0] == m.media_type.name());
    assert(attr_ok::<MediaType>(ps, "TYPE"@));
    assert(attr_val::<MediaType>(ps, "TYPE"@) == Some(m.media_type));
    lemma_quoted_opt_read(ps, "URI"@, m.uri);
    lemma_quoted_opt_read(ps, "GROUP-ID"@, Some(m.group_id));
    lemma_quoted_opt_read(ps, "LANGUAGE"@, m.language);
    lemma_quoted_opt_read(ps, "ASSOC-LANGUAGE"@, m.assoc_language);
    lemma_quoted_opt_read(ps, "NAME"@, Some(m.name));
    lemma_quoted_opt_read(ps, "CHARACTERISTICS"@, m.characteristics);
    lemma_flag_read(ps, "DEFAULT"@, m.is_default);
    lemma_flag_read(ps, "AUTOSELECT"@, m.is_autoselect);
    lemma_flag_read(ps, "FORCED"@, m.is_forced);
    if let Some(i) = m.instream_id {
        let n = i.name();
        lemma_in_stream_id_plain(i);
        assert forall|j: int| 0 <= j < n.len() implies n[j] != '"' && n[j] != '\n' && n[j]
            != '\r' by {
            assert(('A' <= n[j] <= 'Z') || ('0' <= n[j] <= '9') || n[j] == '-');
        }
        lemma_strip_quotes_id(n);
        lemma_strip_quoted(n);
        lemma_in_stream_id_roundtrip(i);
        assert(values_for(ps, "INSTREAM-ID"@)[0] == quoted(n));
    }
    assert(attr_ok::<Quoted<InStreamId>>(ps, "INSTREAM-ID"@));
    if let Some(c) = m.channels {
        let t = c.spec_to_string();
        lemma_dec(c.count() as nat);
        assert forall|j: int| 0 <= j < t.len() implies t[j] != '"' && t[j] != '\n' && t[j]
            != '\r' by {
            assert(is_digit(t[j]));
        }
        lemma_strip_quotes_id(t);
        lemma_strip_quoted(t);
        lemma_channels_roundtrip(c);
        Channels::lemma_spec_new(c.count(), c);
        assert(values_for(ps, "CHANNELS"@)[0] == quoted(t));
    }
    assert(attr_ok::<Quoted<Channels>>(ps, "CHANNELS"@));
    assert(media_attrs_ok(ps));
    let b = media_builder_of_pairs(ps);
    assert(b.instream_id == m.instream_id);
    assert(b.channels == m.channels);
    assert(media_build(b) == Ok::<MediaView, Seq<char>>(m));
}

/// Reading the text of an `#EXT-X-MEDIA` tag gives the tag back, when the rendition
/// reads back as itself.
pub proof fn lemma_media_tag_roundtrip(m: MediaView)
    requires
        media_reads_back(m),
    ensures
        ExtXMedia::spec_parse("#EXT-X-MEDIA:"@ + media_text(m)) == Some(m),
{
    lemma_media_text_ends(m);
    reveal_strlit("#EXT-X-MEDIA:");
    lemma_after_tag("#EXT-X-MEDIA:"@, media_text(m));
    lemma_media_roundtrip(m);
}

/// The text of a rendition is not empty and does not end with white space.
proof fn lemma_media_text_ends(m: MediaView)
    ensures
        media_text(m).len() > 0,
        !is_ws(media_text(m).last()),
{
    reveal_strlit("=YES");
    let h = media_head(m);
    let f1 = flag_attr("DEFAULT"@, m.is_default);
    let f2 = flag_attr("AUTOSELECT"@, m.is_autoselect);
    let f3 = flag_attr("FORCED"@, m.is_forced);
    let t1 = opt_quoted_attr("INSTREAM-ID"@, instream_name(m));
    let t2 = opt_quoted_attr("CHARACTERISTICS"@, m.characteristics);
    let t3 = opt_quoted_attr("CHANNELS"@, channels_text(m));
    let x = media_text(m);
    lemma_concat3(h, f1, f2, f3);
    lemma_concat3(h + media_flags(m), t1, t2, t3);
    assert(x == h + f1 + f2 + f3 + t1 + t2 + t3);
    assert(h.last() == '"');
    if t3.len() > 0 {
        assert(x.last() == t3.last());
    } else if t2.len() > 0 {
        assert(x.last() == t2.last());
    } else if t1.len() > 0 {
        assert(x.last() == t1.last());
    } else if f3.len() > 0 {
        assert(x.last() == f3.last());
    } else if f2.len() > 0 {
        assert(x.last() == f2.last());
    } else if f1.len() > 0 {
        assert(x.last() == f1.last());
    } else {
        assert(x.last() == h.last());
    }
}

/// An optional value between double quotes holds no line feed.
proof fn lemma_quoted_opt_no_lf(v: Option<Seq<char>>)
    ensures
        quoted_opt(v) matches Some(x) ==> no_lf(x),
{
    if let Some(x) = v {
        lemma_quoted_no_lf(x);
    }
}

/// The pairs of every rendition hold no line feed.
proof fn lemma_media_pairs_no_lf(m: MediaView)
    ensures
        pairs_no_lf(media_pairs(m)),
{
    reveal_strlit("TYPE");
    reveal_strlit("URI");
    reveal_strlit("GROUP-ID");
    reveal_strlit("LANGUAGE");
    reveal_strlit("ASSOC-LANGUAGE");
    reveal_strlit("NAME");
    reveal_strlit("DEFAULT");
    reveal_strlit("AUTOSELECT");
    reveal_strlit("FORCED");
    reveal_strlit("INSTREAM-ID");
    reveal_strlit("CHARACTERISTICS");
    reveal_strlit("CHANNELS");
    reveal_strlit("YES");
    reveal_strlit("AUDIO");
    reveal_strlit("VIDEO");
    reveal_strlit("SUBTITLES");
    reveal_strlit("CLOSED-CAPTIONS");
    assert(no_lf(m.media_type.name()));
    let e = Seq::<(Seq<char>, Seq<char>)>::empty();
    let p0 = seq![("TYPE"@, m.media_type.name())];
    assert(p0 == e.push(("TYPE"@, m.media_type.name())));
    lemma_pairs_no_lf_push(e, ("TYPE"@, m.media_type.name()));
    lemma_quoted_opt_no_lf(m.uri);
    lemma_quoted_no_lf(m.group_id);
    lemma_quoted_opt_no_lf(m.language);
    lemma_quoted_opt_no_lf(m.assoc_language);
    lemma_quoted_no_lf(m.name);
    lemma_quoted_opt_no_lf(instream_name(m));
    lemma_quoted_opt_no_lf(m.characteristics);
    lemma_quoted_opt_no_lf(channels_text(m));
    let p1 = opt_push(p0, "URI"@, quoted_opt(m.uri));
    let p2 = opt_push(p1, "GROUP-ID"@, Some(quoted(m.group_id)));
    let p3 = opt_push(p2, "LANGUAGE"@, quoted_opt(m.language));
    let p4 = opt_push(p3, "ASSOC-LANGUAGE"@, quoted_opt(m.assoc_language));
    let p5 = media_head_pairs(m);
    let p6 = opt_push(p5, "DEFAULT"@, yes_opt(m.is_default));
    let p7 = opt_push(p6, "AUTOSELECT"@, yes_opt(m.is_autoselect));
    let p8 = media_flag_pairs(m);
    let p9 = opt_push(p8, "INSTREAM-ID"@, quoted_opt(instream_name(m)));
    let p10 = opt_push(p9, "CHARACTERISTICS"@, quoted_opt(m.characteristics));
    lemma_pairs_no_lf_opt_push(p0, "URI"@, quoted_opt(m.uri));
    lemma_pairs_no_lf_opt_push(p1, "GROUP-ID"@, Some(quoted(m.group_id)));
    lemma_pairs_no_lf_opt_push(p2, "LANGUAGE"@, quoted_opt(m.language));
    lemma_pairs_no_lf_opt_push(p3, "ASSOC-LANGUAGE"@, quoted_opt(m.assoc_language));
    lemma_pairs_no_lf_opt_push(p4, "NAME"@, Some(quoted(m.name)));
    lemma_pairs_no_lf_opt_push(p5, "DEFAULT"@, yes_opt(m.is_default));
    lemma_pairs_no_lf_opt_push(p6, "AUTOSELECT"@, yes_opt(m.is_autoselect));
    lemma_pairs_no_lf_opt_push(p7, "FORCED"@, yes_opt(m.is_forced));
    lemma_pairs_no_lf_opt_push(p8, "INSTREAM-ID"@, quoted_opt(instream_name(m)));
    lemma_pairs_no_lf_opt_push(p9, "CHARACTERISTICS"@, quoted_opt(m.characteristics));
    lemma_pairs_no_lf_opt_push(p10, "CHANNELS"@, quoted_opt(channels_text(m)));
}

/// The line of a rendition is one line, neither blank nor padded with white space.
pub proof fn lemma_media_line_ok(m: MediaView)
    ensures
        ("#EXT-X-MEDIA:"@ + media_text(m)).len() > 0,
        trim("#EXT-X-MEDIA:"@ + media_text(m)) == "#EXT-X-MEDIA:"@ + media_text(m),
        no_lf("#EXT-X-MEDIA:"@ + media_text(m)),
        starts_with("#EXT-X-MEDIA:"@ + media_text(m), "#EXT-X-MEDIA:"@),
{
    reveal_strlit("#EXT-X-MEDIA:");
    let p = "#EXT-X-MEDIA:"@;
    let t = media_text(m);
    lemma_media_text_ends(m);
    lemma_media_pairs_no_lf(m);
    lemma_media_text_pairs(m);
    lemma_attr_list_no_lf(media_pairs(m));
    lemma_no_lf_concat(p, t);
    assert((p + t)[0] == '#');
    assert((p + t).last() == t.last());
    lemma_trim_id(p + t);
    assert((p + t).take(p.len() as int) == p);
}

impl RequiredVersion for ExtXMedia {
    fn required_version(&self) -> (res: ProtocolVersion)
        ensures
            res == media_version(self@),
    {
        ExtXMedia::required_version(self)
    }
}

/// A builder for an [`ExtXMedia`] tag.
#[derive(Debug, Clone, PartialEq, Eq)]
pub struct ExtXMediaBuilder {
    media_type: Option<MediaType>,
    uri: Option<String>,
    group_id: Option<String>,
    language: Option<String>,
    assoc_language: Option<String>,
    name: Option<String>,
    is_default: Option<bool>,
    is_autoselect: Option<bool>,
    is_forced: Option<bool>,
    instream_id: Option<InStreamId>,
    characteristics: Option<String>,
    channels: Option<Channels>,
}

impl View for ExtXMediaBuilder {
    type V = MediaBuilderView;

    closed spec fn view(&self) -> MediaBuilderView {
        MediaBuilderView {
            media_type: self.media_type,
            uri: opt_view(self.uri),
            group_id: opt_view(self.group_id),
            language: opt_view(self.language),
            assoc_language: opt_view(self.assoc_language),
            name: opt_view(self.name),
            is_default: self.is_default,
            is_autoselect: self.is_autoselect,
            is_forced: self.is_forced,
            instream_id: self.instream_id,
            characteristics: opt_view(self.characteristics),
            channels: self.channels,
        }
    }
}

impl ExtXMediaBuilder {
    /// Sets the type of the rendition.
    pub fn media_type(self, value: MediaType) -> (res: ExtXMediaBuilder)
        ensures
            res@ == (MediaBuilderView { media_type: Some(value), ..self@ }),
    {
        ExtXMediaBuilder { media_type: Some(value), ..self }
    }

    /// Sets the location of the media playlist.
    pub fn uri(self, value: &str) -> (res: ExtXMediaBuilder)
        ensures
            res@ == (MediaBuilderView { uri: Some(value@), ..self@ }),
    {
        ExtXMediaBuilder { uri: Some(String::from_str(value)), ..self }
    }

    /// Sets the group.
    pub fn group_id(self, value: &str) -> (res: ExtXMediaBuilder)
        ensures
            res@ == (MediaBuilderView { group_id: Some(value@), ..self@ }),
    {
        ExtXMediaBuilder { group_id: Some(String::from_str(value)), ..self }
    }

    /// Sets the language.
    pub fn language(self, value: &str) -> (res: ExtXMediaBuilder)
        ensures
            res@ == (MediaBuilderView { language: Some(value@), ..self@ }),
    {
        ExtXMediaBuilder { language: Some(String::from_str(value)), ..self }
    }

    /// Sets an associated language.
    pub fn assoc_language(self, value: &str) -> (res: ExtXMediaBuilder)
        ensures
            res@ == (MediaBuilderView { assoc_language: Some(value@), ..self@ }),
    {
        ExtXMediaBuilder { assoc_language: Some(String::from_str(value)), ..self }
    }

    /// Sets the name.
    pub fn name(self, value: &str) -> (res: ExtXMediaBuilder)
        ensures
            res@ == (MediaBuilderView { name: Some(value@), ..self@ }),
    {
        ExtXMediaBuilder { name: Some(String::from_str(value)), ..self }
    }

    /// Sets whether the rendition is played by default.
    pub fn is_default(self, value: bool) -> (res: ExtXMediaBuilder)
        ensures
            res@ == (MediaBuilderView { is_default: Some(value), ..self@ }),
    {
        ExtXMediaBuilder { is_default: Some(value), ..self }
    }

    /// Sets whether the client may choose the rendition.
    pub fn is_autoselect(self, value: bool) -> (res: ExtXMediaBuilder)
        ensures
            res@ == (MediaBuilderView { is_autoselect: Some(value), ..self@ }),
    {
        ExtXMediaBuilder { is_autoselect: Some(value), ..self }
    }

    /// Sets whether the rendition is essential.
    pub fn is_forced(self, value: bool) -> (res: ExtXMediaBuilder)
        ensures
            res@ == (MediaBuilderView { is_forced: Some(value), ..self@ }),
    {
        ExtXMediaBuilder { is_forced: Some(value), ..self }
    }

    /// Sets the in-stream id of the closed captions.
    pub fn instream_id(self, value: InStreamId) -> (res: ExtXMediaBuilder)
        ensures
            res@ == (MediaBuilderView { instream_id: Some(value), ..self@ }),
    {
        ExtXMediaBuilder { instream_id: Some(value), ..self }
    }

    /// Sets the characteristics.
    pub fn characteristics(self, value: &str) -> (res: ExtXMediaBuilder)
        ensures
            res@ == (MediaBuilderView { characteristics: Some(value@), ..self@ }),
    {
        ExtXMediaBuilder { characteristics: Some(String::from_str(value)), ..self }
    }

    /// Sets the audio channels.
    pub fn channels(self, value: Channels) -> (res: ExtXMediaBuilder)
        ensures
            res@ == (MediaBuilderView { channels: Some(value), ..self@ }),
    {
        ExtXMediaBuilder { channels: Some(value), ..self }
    }

    /// Builds the tag, or says why the settings do not make a valid rendition.
    pub fn build(self) -> (res: Result<ExtXMedia, String>)
        ensures
            match media_build(self@) {
                Ok(m) => res matches Ok(t) && t@ == m,
                Err(msg) => res matches Err(e) && e@ == msg,
            },
    {
        let media_type = match self.media_type {
            Some(t) => t,
            None => {
                return Err(String::from_str("missing attribute: \"MEDIA-TYPE\""));
            },
        };
        let is_subtitles = match media_type {
            MediaType::Subtitles => true,
            _ => false,
        };
        let is_cc = match media_type {
            MediaType::ClosedCaptions => true,
            _ => false,
        };
        if is_subtitles && self.uri.is_none() {
            return Err(String::from_str("missing attribute: \"URI\""));
        }
        if is_cc {
            if self.uri.is_some() {
                return Err(String::from_str("unexpected attribute: \"URI\""));
            }
            if self.instream_id.is_none() {
                return Err(String::from_str("missing attribute: \"INSTREAM-ID\""));
            }
        } else if self.instream_id.is_some() {
            return Err(String::from_str("unexpected attribute: \"INSTREAM-ID\""));
        }
        let d = match self.is_default {
            Some(b) => b,
            None => false,
        };
        let a = match self.is_autoselect {
            Some(b) => b,
            None => false,
        };
        if d && !a {
            let mut m: Vec<char> = Vec::new();
            push_str(&mut m, "If `DEFAULT` is true, `AUTOSELECT` has to be true too, Default: ");
            write_flag_debug(&mut m, self.is_default);
            push_str(&mut m, ", Autoselect: ");
            write_flag_debug(&mut m, self.is_autoselect);
            push_str(&mut m, "!");
            return Err(string_of(&m));
        }
        if !is_subtitles && self.is_forced.is_some() {
            return Err(String::from_str("invalid input"));
        }
        let group_id = match self.group_id {
            Some(g) => g,
            None => {
                return Err(String::from_str("`group_id` must be initialized"));
            },
        };
        let name = match self.name {
            Some(n) => n,
            None => {
                return Err(String::from_str("`name` must be initialized"));
            },
        };
        Ok(
            ExtXMedia {
                media_type,
                uri: self.uri,
                group_id,
                language: self.language,
                assoc_language: self.assoc_language,
                name,
                is_default: d,
                is_autoselect: a,
                is_forced: match self.is_forced {
                    Some(b) => b,
                    None => false,
                },
                instream_id: self.instream_id,
                characteristics: self.characteristics,
                channels: self.channels,
            },
        )
    }
}

/// Appends the debug text of an optional flag.
fn write_flag_debug(out: &mut Vec<char>, b: Option<bool>)
    ensures
        final(out)@ == old(out)@ + flag_debug(b),
{
    match b {
        Some(true) => push_str(out, "Some(true)"),
        Some(false) => push_str(out, "Some(false)"),
        None => push_str(out, "None"),
    }
}

} // verus!
