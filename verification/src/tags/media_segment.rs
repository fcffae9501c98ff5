use vstd::prelude::*;

use crate::attribute::{
    attr_list, attr_ok, attr_pairs, attr_val, lemma_attr_list_push, lemma_attr_roundtrip,
    lemma_plain_key, lemma_quoted_wf_value, lemma_values_for_push, lemma_wf_pairs_push,
    pair_views, pairs_of, parse_attr, quoted_attr, quoted_value, values_for, AttrValue, Quoted,
};
use crate::error::{debug_quoted, push_debug_quoted_chars, Error};
use crate::text::{
    after_tag, chars_of, dec, decimal_text, equals_str, lemma_decimal_text_plain, expect_tag, find_char, fixed_digits,
    is_digit, is_ws, lemma_after_tag, lemma_all_digits_prefix, lemma_dec, lemma_find_char,
    lemma_find_char_at, lemma_fixed_digits, lemma_pow10_9, lemma_strip_quoted, lemma_trim_id,
    lemma_trim_zeros_pad, position, push_quoted_string, push_str, push_string,
    quoted, slice_of, string_of, strip_quotes, trim, trim_zeros, trimmed,
};
use crate::traits::RequiredVersion;
use crate::types::{
    key_of_pairs, key_reads_back, key_text, key_version, lemma_key_roundtrip,
    lemma_key_text_ends, lemma_byte_range_roundtrip, lemma_duration_roundtrip,
    lemma_view_injective, range_len, range_of_text, range_ok, range_text, ByteRange, DecryptionKey, Duration, KeyView,
    ProtocolVersion,
};

verus! {

/// The `#EXTINF` tag: the duration of a media segment and an optional title.
#[derive(Debug, Clone, PartialEq, Eq, PartialOrd, Ord, Hash)]
pub struct ExtInf {
    duration: Duration,
    title: Option<String>,
}

impl View for ExtInf {
    type V = (Duration, Option<Seq<char>>);

    closed spec fn view(&self) -> (Duration, Option<Seq<char>>) {
        (
            self.duration,
            match self.title {
                Some(t) => Some(t@),
                None => None,
            },
        )
    }
}

/// The duration part of the text after `#EXTINF:`: everything before the first `,`.
pub open spec fn inf_duration_part(r: Seq<char>) -> Seq<char> {
    match find_char(r, ',') {
        Some(k) => r.take(k),
        None => r,
    }
}

/// The title of the text after `#EXTINF:`: what follows the first `,`, trimmed, if it
/// is not empty.
pub open spec fn inf_title_part(r: Seq<char>) -> Option<Seq<char>> {
    match find_char(r, ',') {
        Some(k) => if trim(r.skip(k + 1)).len() > 0 {
            Some(trim(r.skip(k + 1)))
        } else {
            None
        },
        None => None,
    }
}

impl ExtInf {
    /// A tag with the given duration and no title.
    pub fn new(duration: Duration) -> (res: ExtInf)
        ensures
            res@ == (duration, None::<Seq<char>>),
    {
        ExtInf { duration, title: None }
    }

    /// A tag with the given duration and no title.
    pub fn from(duration: Duration) -> (res: ExtInf)
        ensures
            res@ == (duration, None::<Seq<char>>),
    {
        ExtInf::new(duration)
    }

    /// A tag with the given duration and title.
    pub fn with_title(duration: Duration, title: &str) -> (res: ExtInf)
        ensures
            res@ == (duration, Some(title@)),
    {
        ExtInf { duration, title: Some(String::from_str(title)) }
    }

    /// The duration of the media segment.
    pub fn duration(&self) -> (res: Duration)
        ensures
            res == self@.0,
    {
        self.duration
    }

    /// Sets the duration of the media segment.
    pub fn set_duration(&mut self, value: Duration)
        ensures
            final(self)@ == (value, old(self)@.1),
    {
        self.duration = value;
    }

    /// The title of the media segment.
    pub fn title(&self) -> (res: &Option<String>)
        ensures
            match *res {
                Some(t) => self@.1 == Some(t@),
                None => self@.1 is None,
            },
    {
        &self.title
    }

    /// Sets the title of the media segment.
    pub fn set_title(&mut self, value: Option<&str>)
        ensures
            final(self)@ == (old(self)@.0, match value {
                Some(v) => Some(v@),
                None => None::<Seq<char>>,
            }),
    {
        self.title = match value {
            Some(v) => Some(String::from_str(v)),
            None => None,
        };
    }

    /// The tag itself: it owns all its data already.
    pub fn into_owned(self) -> (res: ExtInf)
        ensures
            res@ == self@,
    {
        self
    }

    /// Protocol version 1 when the duration is whole seconds, else 3.
    pub fn required_version(&self) -> (res: ProtocolVersion)
        ensures
            res == (if self@.0.nanos() == 0 {
                ProtocolVersion::V1
            } else {
                ProtocolVersion::V3
            }),
    {
        if self.duration.subsec_nanos() == 0 {
            ProtocolVersion::V1
        } else {
            ProtocolVersion::V3
        }
    }

    /// The text of the tag: `#EXTINF:<duration>,<title>`.
    pub open spec fn spec_to_string(self) -> Seq<char> {
        "#EXTINF:"@ + self@.0.spec_to_string() + seq![','] + match self@.1 {
            Some(t) => t,
            None => seq![],
        }
    }

    /// The tag that the line `s` holds.
    pub open spec fn spec_parse(s: Seq<char>) -> Option<(Duration, Option<Seq<char>>)> {
        match after_tag(s, "#EXTINF:"@) {
            Some(r) => match Duration::spec_parse(inf_duration_part(r)) {
                Some(d) => Some((d, inf_title_part(r))),
                None => None,
            },
            None => None,
        }
    }

    /// Appends the text of the tag to `out`.
    pub fn write(&self, out: &mut Vec<char>)
        ensures
            final(out)@ == old(out)@ + self.spec_to_string(),
    {
        let ghost start = out@;
        push_str(out, "#EXTINF:");
        self.duration.write(out);
        out.push(',');
        let ghost mid = out@;
        match &self.title {
            Some(t) => push_string(out, t),
            None => {},
        }
        assert(out@ =~= start + self.spec_to_string());
    }

    /// The text of the tag.
    pub fn to_string(&self) -> (res: String)
        ensures
            res@ == self.spec_to_string(),
    {
        let mut out = Vec::new();
        self.write(&mut out);
        string_of(&out)
    }

    /// Parses the tag from the characters of a line.
    pub fn parse_chars(v: &Vec<char>) -> (res: Result<ExtInf, Error>)
        ensures
            res is Ok <==> Self::spec_parse(v@) is Some,
            res matches Ok(t) ==> Self::spec_parse(v@) == Some(t@),
    {
        let r = expect_tag(v, "#EXTINF:")?;
        assert(r@.subrange(0, r@.len() as int) == r@);
        let (dur, title) = match position(&r, 0, r.len(), ',') {
            Some(k) => {
                proof {
                    lemma_find_char(r@, ',');
                }
                let d = slice_of(&r, 0, k);
                let t = trimmed(&r, k + 1, r.len());
                assert(d@ == r@.take(k as int));
                assert(r@.subrange(k + 1, r@.len() as int) == r@.skip(k + 1));
                (d, if t.len() > 0 {
                    Some(string_of(&t))
                } else {
                    None
                })
            },
            None => (slice_of(&r, 0, r.len()), None),
        };
        match Duration::parse_chars(&dur) {
            Some(d) => Ok(ExtInf { duration: d, title }),
            None => Err(Error::ParseFloatError { input: string_of(&dur) }),
        }
    }

    /// Parses the tag.
    pub fn try_from(input: &str) -> (res: Result<ExtInf, Error>)
        ensures
            res is Ok <==> Self::spec_parse(input@) is Some,
            res matches Ok(t) ==> Self::spec_parse(input@) == Some(t@),
    {
        Self::parse_chars(&chars_of(input))
    }
}

impl RequiredVersion for ExtInf {
    fn required_version(&self) -> (res: ProtocolVersion)
        ensures
            res == (if self@.0.nanos() == 0 {
                ProtocolVersion::V1
            } else {
                ProtocolVersion::V3
            }),
    {
        ExtInf::required_version(self)
    }
}

/// Reading the text of an `#EXTINF` tag gives the tag back, when its title (if any) is
/// not empty and neither starts nor ends with white space.
pub proof fn lemma_inf_roundtrip(t: ExtInf)
    requires
        t@.0.nanos() < 1_000_000_000,
        t@.1 matches Some(x) ==> x.len() > 0 && !is_ws(x[0]) && !is_ws(x.last()),
    ensures
        ExtInf::spec_parse(t.spec_to_string()) == Some(t@),
{
    reveal_strlit("#EXTINF:");
    let p = "#EXTINF:"@;
    let d = t@.0.spec_to_string();
    let title = match t@.1 {
        Some(x) => x,
        None => Seq::<char>::empty(),
    };
    let r = d + seq![','] + title;
    lemma_decimal_text_plain(t@.0.secs(), t@.0.nanos());
    assert(t.spec_to_string() == p + r);
    assert(r.len() > 0);
    if title.len() > 0 {
        assert(r.last() == title.last());
    } else {
        assert(r.last() == ',');
    }
    lemma_after_tag(p, r);
    assert forall|j: int| 0 <= j < d.len() implies r[j] != ',' by {
        assert(r[j] == d[j]);
    }
    assert(r[d.len() as int] == ',');
    lemma_find_char_at(r, ',', d.len() as int);
    assert(r.take(d.len() as int) == d);
    assert(r.skip(d.len() + 1int) == title);
    Duration::lemma_secs_bound(t@.0);
    lemma_duration_roundtrip(t@.0);
    if title.len() > 0 {
        lemma_trim_id(title);
    } else {
        assert(trim(title).len() == 0);
    }
}

/// Reading the text of an `#EXT-X-BYTERANGE` tag gives its range back.
pub proof fn lemma_byte_range_tag_roundtrip(t: ExtXByteRange)
    requires
        range_ok(t.0@.0, t.0@.1),
    ensures
        ExtXByteRange::spec_parse(t.spec_to_string()) == Some(t.0@),
{
    reveal_strlit("#EXT-X-BYTERANGE:");
    let p = "#EXT-X-BYTERANGE:"@;
    let b = range_text(t.0@.0, t.0@.1);
    lemma_byte_range_roundtrip(t.0);
    lemma_range_text_ends(t.0@.0, t.0@.1);
    lemma_after_tag(p, b);
}

/// The text of a byte range is not empty and ends with a digit.
pub proof fn lemma_range_text_ends(start: Option<usize>, end: usize)
    ensures
        range_text(start, end).len() > 0,
        is_digit(range_text(start, end).last()),
{
    let n = range_len(start, end);
    lemma_dec(n);
    match start {
        Some(s) => {
            lemma_dec(s as nat);
            let t = range_text(start, end);
            assert(t.last() == dec(s as nat).last());
        },
        None => {},
    }
}

/// Reading the text of an `#EXT-X-KEY` tag gives the tag back, when its key (if any)
/// reads back as itself.
pub proof fn lemma_key_tag_roundtrip(t: ExtXKey)
    requires
        t@ matches Some(k) ==> key_reads_back(k),
    ensures
        ExtXKey::spec_parse(t.spec_to_string()) == Some(t@),
{
    reveal_strlit("#EXT-X-KEY:");
    reveal_strlit("METHOD=NONE");
    let p = "#EXT-X-KEY:"@;
    match t@ {
        Some(k) => {
            let r = key_text(k);
            lemma_key_text_ends(k);
            lemma_after_tag(p, r);
            lemma_trim_id(r);
            assert(r != "METHOD=NONE"@) by {
                assert("METHOD=NONE"@[7] == 'N');
            }
            lemma_key_roundtrip(k);
        },
        None => {
            let r = "METHOD=NONE"@;
            lemma_after_tag(p, r);
            lemma_trim_id(r);
        },
    }
}

/// The `#EXT-X-BYTERANGE` tag: the media segment is a sub-range of its resource.
#[derive(Debug, Clone, Copy, PartialEq, Eq, Structural, PartialOrd, Ord, Hash)]
pub struct ExtXByteRange(pub ByteRange);

impl ExtXByteRange {
    /// A tag for the given range.
    pub fn new(range: ByteRange) -> (res: ExtXByteRange)
        ensures
            res.0 == range,
    {
        ExtXByteRange(range)
    }

    /// Moves the range `num` bytes forward (see [`ByteRange::saturating_add`]).
    pub fn saturating_add(self, num: usize) -> (res: ExtXByteRange)
        ensures
            match self.0@.0 {
                Some(s) => if self.0@.1 + num <= usize::MAX {
                    res.0@ == (Some((s + num) as usize), (self.0@.1 + num) as usize)
                } else {
                    res == self
                },
                None => res.0@ == (None::<usize>, if self.0@.1 + num <= usize::MAX {
                    (self.0@.1 + num) as usize
                } else {
                    usize::MAX
                }),
            },
    {
        ExtXByteRange(self.0.saturating_add(num))
    }

    /// Moves the range `num` bytes back (see [`ByteRange::saturating_sub`]).
    pub fn saturating_sub(self, num: usize) -> (res: ExtXByteRange)
        ensures
            match self.0@.0 {
                Some(s) => if s >= num {
                    res.0@ == (Some((s - num) as usize), (self.0@.1 - num) as usize)
                } else {
                    res == self
                },
                None => res.0@ == (None::<usize>, if self.0@.1 >= num {
                    (self.0@.1 - num) as usize
                } else {
                    0usize
                }),
            },
    {
        ExtXByteRange(self.0.saturating_sub(num))
    }

    /// The underlying range.
    pub fn as_byte_range(&self) -> (res: &ByteRange)
        ensures
            *res == self.0,
    {
        &self.0
    }

    /// This tag requires protocol version 4.
    pub fn required_version(&self) -> (res: ProtocolVersion)
        ensures
            res == ProtocolVersion::V4,
    {
        ProtocolVersion::V4
    }

    /// The text of the tag.
    pub open spec fn spec_to_string(self) -> Seq<char> {
        "#EXT-X-BYTERANGE:"@ + range_text(self.0@.0, self.0@.1)
    }

    /// The range that the line `s` holds.
    pub open spec fn spec_parse(s: Seq<char>) -> Option<(Option<usize>, usize)> {
        match after_tag(s, "#EXT-X-BYTERANGE:"@) {
            Some(r) => range_of_text(r),
            None => None,
        }
    }

    /// Appends the text of the tag to `out`.
    pub fn write(&self, out: &mut Vec<char>)
        ensures
            final(out)@ == old(out)@ + self.spec_to_string(),
    {
        push_str(out, "#EXT-X-BYTERANGE:");
        self.0.write(out);
    }

    /// The text of the tag.
    pub fn to_string(&self) -> (res: String)
        ensures
            res@ == self.spec_to_string(),
    {
        let mut out = Vec::new();
        self.write(&mut out);
        string_of(&out)
    }

    /// Parses the tag from the characters of a line.
    pub fn parse_chars(v: &Vec<char>) -> (res: Result<ExtXByteRange, Error>)
        ensures
            res is Ok <==> Self::spec_parse(v@) is Some,
            res matches Ok(t) ==> Self::spec_parse(v@) == Some(t.0@),
    {
        let r = expect_tag(v, "#EXT-X-BYTERANGE:")?;
        let range = ByteRange::parse_chars(&r)?;
        Ok(ExtXByteRange(range))
    }

    /// Parses the tag.
    pub fn try_from(input: &str) -> (res: Result<ExtXByteRange, Error>)
        ensures
            res is Ok <==> Self::spec_parse(input@) is Some,
            res matches Ok(t) ==> Self::spec_parse(input@) == Some(t.0@),
    {
        Self::parse_chars(&chars_of(input))
    }
}

impl RequiredVersion for ExtXByteRange {
    fn required_version(&self) -> (res: ProtocolVersion)
        ensures
            res == ProtocolVersion::V4,
    {
        ProtocolVersion::V4
    }
}

/// The `#EXT-X-DISCONTINUITY` tag: the media segment follows a discontinuity.
#[derive(Debug, Clone, Copy, PartialEq, Eq, Structural, PartialOrd, Ord, Hash)]
pub struct ExtXDiscontinuity;

impl ExtXDiscontinuity {
    /// This tag requires protocol version 1.
    pub fn required_version(&self) -> (res: ProtocolVersion)
        ensures
            res == ProtocolVersion::V1,
    {
        ProtocolVersion::V1
    }

    /// The text of the tag.
    pub open spec fn spec_to_string(self) -> Seq<char> {
        "#EXT-X-DISCONTINUITY"@
    }

    /// The text of the tag.
    pub fn to_string(&self) -> (res: String)
        ensures
            res@ == self.spec_to_string(),
    {
        String::from_str("#EXT-X-DISCONTINUITY")
    }

    /// Parses the tag: the line must be exactly `#EXT-X-DISCONTINUITY`.
    pub fn parse_chars(v: &Vec<char>) -> (res: Result<ExtXDiscontinuity, Error>)
        ensures
            res is Ok <==> v@ == "#EXT-X-DISCONTINUITY"@,
            res is Err ==> (res matches Err(Error::Custom(m)) && m@ == "Unexpected data in the line: "@
                + debug_quoted(v@)),
    {
        if equals_str(v, "#EXT-X-DISCONTINUITY") {
            Ok(ExtXDiscontinuity)
        } else {
            let mut m: Vec<char> = Vec::new();
            push_str(&mut m, "Unexpected data in the line: ");
            push_debug_quoted_chars(&mut m, v);
            Err(Error::Custom(string_of(&m)))
        }
    }

    /// Parses the tag.
    pub fn try_from(input: &str) -> (res: Result<ExtXDiscontinuity, Error>)
        ensures
            res is Ok <==> input@ == "#EXT-X-DISCONTINUITY"@,
            res is Err ==> (res matches Err(Error::Custom(m)) && m@ == "Unexpected data in the line: "@
                + debug_quoted(input@)),
    {
        Self::parse_chars(&chars_of(input))
    }
}

impl RequiredVersion for ExtXDiscontinuity {
    fn required_version(&self) -> (res: ProtocolVersion)
        ensures
            res == ProtocolVersion::V1,
    {
        ProtocolVersion::V1
    }
}

/// The `#EXT-X-KEY` tag: how to decrypt the media segments that follow, or that they
/// are not encrypted (`METHOD=NONE`).
#[derive(Debug, Clone, PartialEq, Eq, PartialOrd, Ord, Hash)]
pub struct ExtXKey(pub Option<DecryptionKey>);

impl View for ExtXKey {
    type V = Option<KeyView>;

    open spec fn view(&self) -> Option<KeyView> {
        match self.0 {
            Some(k) => Some(k@),
            None => None,
        }
    }
}

impl ExtXKey {
    /// A tag with the given key.
    pub fn new(inner: DecryptionKey) -> (res: ExtXKey)
        ensures
            res@ == Some(inner@),
    {
        ExtXKey(Some(inner))
    }

    /// A tag that says that the segments are not encrypted.
    pub fn empty() -> (res: ExtXKey)
        ensures
            res@ is None,
    {
        ExtXKey(None)
    }

    /// Whether the tag holds a key.
    pub fn is_some(&self) -> (res: bool)
        ensures
            res == (self@ is Some),
    {
        self.0.is_some()
    }

    /// Whether the tag holds no key.
    pub fn is_none(&self) -> (res: bool)
        ensures
            res == (self@ is None),
    {
        self.0.is_none()
    }

    /// The key of the tag, which must hold one.
    pub fn unwrap(self) -> (res: DecryptionKey)
        requires
            self@ is Some,
        ensures
            Some(res@) == self@,
    {
        match self.0 {
            Some(k) => k,
            None => {
                assert(false);
                DecryptionKey::new(crate::types::EncryptionMethod::Aes128, "")
            },
        }
    }

    /// The key of the tag, if any.
    pub fn as_ref(&self) -> (res: Option<&DecryptionKey>)
        ensures
            match res {
                Some(k) => self@ == Some(k@),
                None => self@ is None,
            },
    {
        self.0.as_ref()
    }

    /// The key of the tag, if any.
    pub fn into_option(self) -> (res: Option<DecryptionKey>)
        ensures
            match res {
                Some(k) => self@ == Some(k@),
                None => self@ is None,
            },
    {
        self.0
    }

    /// A copy of the tag.
    pub fn copy(&self) -> (res: ExtXKey)
        ensures
            res@ == self@,
    {
        match &self.0 {
            Some(k) => ExtXKey(Some(k.copy())),
            None => ExtXKey(None),
        }
    }

    /// The tag itself: it owns all its data already.
    pub fn into_owned(self) -> (res: ExtXKey)
        ensures
            res@ == self@,
    {
        self
    }

    /// The protocol version that the key needs, or 1 without a key.
    pub fn required_version(&self) -> (res: ProtocolVersion)
        ensures
            res == match self@ {
                Some(k) => key_version(k),
                None => ProtocolVersion::V1,
            },
    {
        match &self.0 {
            Some(k) => k.required_version(),
            None => ProtocolVersion::V1,
        }
    }

    /// The text of the tag.
    pub open spec fn spec_to_string(self) -> Seq<char> {
        "#EXT-X-KEY:"@ + match self@ {
            Some(k) => key_text(k),
            None => "METHOD=NONE"@,
        }
    }

    /// The key that the line `s` holds: none for `METHOD=NONE`.
    pub open spec fn spec_parse(s: Seq<char>) -> Option<Option<KeyView>> {
        match after_tag(s, "#EXT-X-KEY:"@) {
            Some(r) => if trim(r) == "METHOD=NONE"@ {
                Some(None)
            } else {
                match key_of_pairs(attr_pairs(r)) {
                    Some(k) => Some(Some(k)),
                    None => None,
                }
            },
            None => None,
        }
    }

    /// Appends the text of the tag to `out`.
    pub fn write(&self, out: &mut Vec<char>)
        ensures
            final(out)@ == old(out)@ + self.spec_to_string(),
    {
        push_str(out, "#EXT-X-KEY:");
        match &self.0 {
            Some(k) => k.write(out),
            None => push_str(out, "METHOD=NONE"),
        }
    }

    /// The text of the tag.
    pub fn to_string(&self) -> (res: String)
        ensures
            res@ == self.spec_to_string(),
    {
        let mut out = Vec::new();
        self.write(&mut out);
        string_of(&out)
    }

    /// Parses the tag from the characters of a line.
    pub fn parse_chars(v: &Vec<char>) -> (res: Result<ExtXKey, Error>)
        ensures
            res is Ok <==> Self::spec_parse(v@) is Some,
            res matches Ok(t) ==> Self::spec_parse(v@) == Some(t@),
    {
        let r = expect_tag(v, "#EXT-X-KEY:")?;
        let t = trimmed(&r, 0, r.len());
        assert(r@.subrange(0, r@.len() as int) == r@);
        if equals_str(&t, "METHOD=NONE") {
            Ok(ExtXKey(None))
        } else {
            let k = DecryptionKey::parse_chars(&r)?;
            Ok(ExtXKey(Some(k)))
        }
    }

    /// Parses the tag.
    pub fn try_from(input: &str) -> (res: Result<ExtXKey, Error>)
        ensures
            res is Ok <==> Self::spec_parse(input@) is Some,
            res matches Ok(t) ==> Self::spec_parse(input@) == Some(t@),
    {
        Self::parse_chars(&chars_of(input))
    }
}

impl RequiredVersion for ExtXKey {
    fn required_version(&self) -> (res: ProtocolVersion)
        ensures
            res == match self@ {
                Some(k) => key_version(k),
                None => ProtocolVersion::V1,
            },
    {
        ExtXKey::required_version(self)
    }
}

/// The parts of an `#EXT-X-MAP` tag, with its text fields taken by their characters.
pub struct MapView {
    pub uri: Seq<char>,
    pub range: Option<ByteRange>,
    pub keys: Seq<Option<KeyView>>,
}

/// The `#EXT-X-MAP` tag: where the media initialization section of the segments
/// that follow can be found.
#[derive(Debug, Clone, PartialEq, Eq, PartialOrd, Ord, Hash)]
pub struct ExtXMap {
    uri: String,
    range: Option<ByteRange>,
    keys: Vec<ExtXKey>,
}

impl View for ExtXMap {
    type V = MapView;

    closed spec fn view(&self) -> MapView {
        MapView {
            uri: self.uri@,
            range: self.range,
            keys: Seq::new(self.keys@.len(), |i: int| self.keys@[i]@),
        }
    }
}

/// The text of the attribute list of an `#EXT-X-MAP` tag.
pub open spec fn map_text(uri: Seq<char>, range: Option<ByteRange>) -> Seq<char> {
    "URI="@ + quoted(uri) + match range {
        Some(r) => ",BYTERANGE="@ + quoted(range_text(r@.0, r@.1)),
        None => seq![],
    }
}

/// The location and range that the attribute list `ps` of an `#EXT-X-MAP` tag gives.
pub open spec fn map_of_pairs(ps: Seq<(Seq<char>, Seq<char>)>) -> Option<(Seq<char>, Option<ByteRange>)> {
    if attr_ok::<Quoted<ByteRange>>(ps, "BYTERANGE"@) {
        match quoted_attr(ps, "URI"@) {
            Some(u) => Some(
                (
                    u,
                    match attr_val::<Quoted<ByteRange>>(ps, "BYTERANGE"@) {
                        Some(q) => Some(q.0),
                        None => None,
                    },
                ),
            ),
            None => None,
        }
    } else {
        None
    }
}

impl ExtXMap {
    /// A tag for the given location.
    pub fn new(uri: &str) -> (res: ExtXMap)
        ensures
            res@.uri == uri@,
            res@.range is None,
            res@.keys.len() == 0,
    {
        ExtXMap { uri: String::from_str(uri), range: None, keys: Vec::new() }
    }

    /// A tag for the given location and byte range.
    pub fn with_range(uri: &str, range: ByteRange) -> (res: ExtXMap)
        ensures
            res@.uri == uri@,
            res@.range == Some(range),
            res@.keys.len() == 0,
    {
        ExtXMap { uri: String::from_str(uri), range: Some(range), keys: Vec::new() }
    }

    /// The location of the media initialization section.
    pub fn uri(&self) -> (res: &String)
        ensures
            res@ == self@.uri,
    {
        &self.uri
    }

    /// Sets the location of the media initialization section.
    pub fn set_uri(&mut self, value: &str)
        ensures
            final(self)@ == (MapView { uri: value@, ..old(self)@ }),
    {
        self.uri = String::from_str(value);
    }

    /// The byte range of the media initialization section.
    pub fn range(&self) -> (res: Option<ByteRange>)
        ensures
            res == self@.range,
    {
        self.range
    }

    /// Sets the byte range of the media initialization section.
    pub fn set_range(&mut self, value: Option<ByteRange>)
        ensures
            final(self)@ == (MapView { range: value, ..old(self)@ }),
    {
        self.range = value;
    }

    /// The keys that decrypt the media initialization section.
    pub fn keys(&self) -> (res: &Vec<ExtXKey>)
        ensures
            res@.len() == self@.keys.len(),
            forall|i: int| 0 <= i < res@.len() ==> (#[trigger] res@[i])@ == self@.keys[i],
    {
        &self.keys
    }

    /// Adds a key that decrypts the media initialization section.
    pub fn push_key(&mut self, key: ExtXKey)
        ensures
            final(self)@ == (MapView { keys: old(self)@.keys.push(key@), ..old(self)@ }),
    {
        let ghost before = self@.keys;
        self.keys.push(key);
        assert(self@.keys =~= before.push(key@));
    }

    /// The keys that decrypt the media initialization section, to change them.
    pub fn keys_mut(&mut self) -> (res: &mut Vec<ExtXKey>)
        ensures
            res@.len() == old(self)@.keys.len(),
            forall|i: int| 0 <= i < res@.len() ==> (#[trigger] res@[i])@ == old(self)@.keys[i],
            final(self)@ == (MapView {
                keys: Seq::new(final(res)@.len(), |i: int| final(res)@[i]@),
                ..old(self)@
            }),
    {
        &mut self.keys
    }

    /// Sets the keys that decrypt the media initialization section.
    pub fn set_keys(&mut self, keys: Vec<ExtXKey>)
        ensures
            final(self)@ == (MapView {
                keys: Seq::new(keys@.len(), |i: int| keys@[i]@),
                ..old(self)@
            }),
    {
        self.keys = keys;
    }

    /// This tag requires protocol version 6 (it was introduced with version 5).
    pub fn required_version(&self) -> (res: ProtocolVersion)
        ensures
            res == ProtocolVersion::V6,
    {
        ProtocolVersion::V6
    }

    /// The tag was introduced with protocol version 5.
    pub fn introduced_version(&self) -> (res: ProtocolVersion)
        ensures
            res == ProtocolVersion::V5,
    {
        ProtocolVersion::V5
    }

    /// The text of the tag.
    pub open spec fn spec_to_string(self) -> Seq<char> {
        "#EXT-X-MAP:"@ + map_text(self@.uri, self@.range)
    }

    /// The location and range that the line `s` holds.
    pub open spec fn spec_parse(s: Seq<char>) -> Option<(Seq<char>, Option<ByteRange>)> {
        match after_tag(s, "#EXT-X-MAP:"@) {
            Some(r) => map_of_pairs(attr_pairs(r)),
            None => None,
        }
    }

    /// Appends the text of the tag to `out`.
    pub fn write(&self, out: &mut Vec<char>)
        ensures
            final(out)@ == old(out)@ + self.spec_to_string(),
    {
        let ghost start = out@;
        push_str(out, "#EXT-X-MAP:");
        push_str(out, "URI=");
        push_quoted_string(out, &self.uri);
        let ghost mid = out@;
        match &self.range {
            Some(r) => {
                push_str(out, ",BYTERANGE=");
                let mut t: Vec<char> = Vec::new();
                r.write(&mut t);
                assert(t@ == range_text(r@.0, r@.1));
                crate::text::push_quoted(out, &t);
                assert(crate::text::strip_quotes(t@) == t@) by {
                    lemma_range_text_plain(r@.0, r@.1);
                }
            },
            None => {},
        }
        assert(out@ =~= start + self.spec_to_string());
    }

    /// The text of the tag.
    pub fn to_string(&self) -> (res: String)
        ensures
            res@ == self.spec_to_string(),
    {
        let mut out = Vec::new();
        self.write(&mut out);
        string_of(&out)
    }

    /// Parses the tag from the characters of a line; the tag holds no keys.
    pub fn parse_chars(v: &Vec<char>) -> (res: Result<ExtXMap, Error>)
        ensures
            res is Ok <==> Self::spec_parse(v@) is Some,
            res matches Ok(t) ==> Self::spec_parse(v@) == Some((t@.uri, t@.range)) && t@.keys.len()
                == 0,
    {
        let r = expect_tag(v, "#EXT-X-MAP:")?;
        let pairs = pairs_of(&r);
        let range = parse_attr::<Quoted<ByteRange>>(&pairs, "BYTERANGE")?;
        let uri = match quoted_value(&pairs, "URI") {
            Some(u) => u,
            None => {
                return Err(Error::MissingValue { value: String::from_str("URI") });
            },
        };
        let range = match range {
            Some(q) => Some(q.0),
            None => None,
        };
        let res = ExtXMap { uri, range, keys: Vec::new() };
        assert(res@.keys.len() == 0);
        Ok(res)
    }

    /// Parses the tag.
    pub fn try_from(input: &str) -> (res: Result<ExtXMap, Error>)
        ensures
            res is Ok <==> Self::spec_parse(input@) is Some,
            res matches Ok(t) ==> Self::spec_parse(input@) == Some((t@.uri, t@.range)),
    {
        Self::parse_chars(&chars_of(input))
    }
}

/// The text of a byte range holds no double quote, line feed or carriage return.
pub proof fn lemma_range_text_plain(start: Option<usize>, end: usize)
    ensures
        crate::text::strip_quotes(range_text(start, end)) == range_text(start, end),
{
    let t = range_text(start, end);
    let n = range_len(start, end);
    crate::text::lemma_dec(n);
    assert forall|i: int| 0 <= i < t.len() implies t[i] != '"' && t[i] != '\n' && t[i] != '\r' by {
        match start {
            Some(s) => {
                crate::text::lemma_dec(s as nat);
                let a = crate::text::dec(n);
                let b = crate::text::dec(s as nat);
                if i < a.len() {
                    assert(t[i] == a[i]);
                    assert(crate::text::is_digit(a[i]));
                } else if i > a.len() {
                    assert(t[i] == b[i - a.len() - 1]);
                    assert(crate::text::is_digit(b[i - a.len() - 1]));
                }
            },
            None => {
                assert(crate::text::is_digit(t[i]));
            },
        }
    }
    lemma_strip_plain(t);
}

/// Removing quotes from text without quotes, line feeds or carriage returns keeps it.
pub proof fn lemma_strip_plain(t: Seq<char>)
    requires
        forall|i: int| 0 <= i < t.len() ==> t[i] != '"' && t[i] != '\n' && t[i] != '\r',
    ensures
        crate::text::strip_quotes(t) == t,
    decreases t.len(),
{
    if t.len() > 0 {
        lemma_strip_plain(t.drop_last());
        assert(t.drop_last().push(t.last()) == t);
    }
}

/// Reading the text of an `#EXT-X-MAP` tag gives its location and range back, when the
/// location holds no double quote, line feed or carriage return and the range is valid.
pub proof fn lemma_map_roundtrip(t: ExtXMap)
    requires
        strip_quotes(t@.uri) == t@.uri,
        t@.range matches Some(r) ==> range_ok(r@.0, r@.1),
    ensures
        ExtXMap::spec_parse(t.spec_to_string()) == Some((t@.uri, t@.range)),
{
    lemma_map_text_roundtrip(t@.uri, t@.range);
}

/// Reading the `#EXT-X-MAP` line of a location and a range gives them back, when the
/// location holds no double quote, line feed or carriage return and the range is valid.
pub proof fn lemma_map_text_roundtrip(uri: Seq<char>, range: Option<ByteRange>)
    requires
        strip_quotes(uri) == uri,
        range matches Some(r) ==> range_ok(r@.0, r@.1),
    ensures
        ExtXMap::spec_parse("#EXT-X-MAP:"@ + map_text(uri, range)) == Some((uri, range)),
{
    reveal_strlit("#EXT-X-MAP:");
    reveal_strlit("URI=");
    reveal_strlit(",BYTERANGE=");
    reveal_strlit("URI");
    reveal_strlit("BYTERANGE");
    let ku = "URI"@;
    let kb = "BYTERANGE"@;
    assert(ku.len() != kb.len());
    let u = (ku, quoted(uri));
    let e = Seq::<(Seq<char>, Seq<char>)>::empty();
    let p0 = e.push(u);
    lemma_attr_list_push(e, u);
    lemma_plain_key(ku);
    lemma_plain_key(kb);
    lemma_quoted_wf_value(uri);
    lemma_wf_pairs_push(e, u);
    lemma_values_for_push(e, u, ku);
    lemma_values_for_push(e, u, kb);
    let text = map_text(uri, range);
    lemma_strip_quoted(uri);
    match range {
        Some(r) => {
            let rt = range_text(r@.0, r@.1);
            let b = (kb, quoted(rt));
            let ps = p0.push(b);
            lemma_attr_list_push(p0, b);
            assert(text =~= attr_list(ps));
            lemma_quoted_wf_value(rt);
            lemma_wf_pairs_push(p0, b);
            lemma_attr_roundtrip(ps);
            lemma_values_for_push(p0, b, ku);
            lemma_values_for_push(p0, b, kb);
            assert(values_for(ps, ku) == seq![quoted(uri)]);
            assert(values_for(ps, kb) == seq![quoted(rt)]);
            lemma_range_text_plain(r@.0, r@.1);
            lemma_strip_quoted(rt);
            lemma_byte_range_roundtrip(r);
            if let Some(c) = ByteRange::spec_value(rt) {
                assert(c@ == r@);
                lemma_view_injective(c, r);
            }
            assert(text.last() == '"');
        },
        None => {
            assert(text =~= attr_list(p0));
            lemma_attr_roundtrip(p0);
            assert(text.last() == '"');
        },
    }
    lemma_after_tag("#EXT-X-MAP:"@, text);
}

impl RequiredVersion for ExtXMap {
    fn required_version(&self) -> (res: ProtocolVersion)
        ensures
            res == ProtocolVersion::V6,
    {
        ProtocolVersion::V6
    }
}

/// The `#EXT-X-PROGRAM-DATE-TIME` tag: the date and time of the first sample of the
/// media segment, as text.
#[derive(Debug, Clone, PartialEq, Eq, PartialOrd, Ord, Hash)]
pub struct ExtXProgramDateTime {
    /// The date and time.
    pub date_time: String,
}

impl ExtXProgramDateTime {
    /// A tag with the given date and time.
    pub fn new(date_time: &str) -> (res: ExtXProgramDateTime)
        ensures
            res.date_time@ == date_time@,
    {
        ExtXProgramDateTime { date_time: String::from_str(date_time) }
    }

    /// The date and time.
    pub fn date_time(&self) -> (res: &String)
        ensures
            res@ == self.date_time@,
    {
        &self.date_time
    }

    /// The tag itself: it owns all its data already.
    pub fn into_owned(self) -> (res: ExtXProgramDateTime)
        ensures
            res.date_time@ == self.date_time@,
    {
        self
    }

    /// This tag requires protocol version 1.
    pub fn required_version(&self) -> (res: ProtocolVersion)
        ensures
            res == ProtocolVersion::V1,
    {
        ProtocolVersion::V1
    }

    /// The text of the tag.
    pub open spec fn spec_to_string(self) -> Seq<char> {
        "#EXT-X-PROGRAM-DATE-TIME:"@ + self.date_time@
    }

    /// The date and time that the line `s` holds.
    pub open spec fn spec_parse(s: Seq<char>) -> Option<Seq<char>> {
        after_tag(s, "#EXT-X-PROGRAM-DATE-TIME:"@)
    }

    /// Appends the text of the tag to `out`.
    pub fn write(&self, out: &mut Vec<char>)
        ensures
            final(out)@ == old(out)@ + self.spec_to_string(),
    {
        push_str(out, "#EXT-X-PROGRAM-DATE-TIME:");
        push_string(out, &self.date_time);
    }

    /// The text of the tag.
    pub fn to_string(&self) -> (res: String)
        ensures
            res@ == self.spec_to_string(),
    {
        let mut out = Vec::new();
        self.write(&mut out);
        string_of(&out)
    }

    /// Parses the tag from the characters of a line.
    pub fn parse_chars(v: &Vec<char>) -> (res: Result<ExtXProgramDateTime, Error>)
        ensures
            res is Ok <==> Self::spec_parse(v@) is Some,
            res matches Ok(t) ==> Self::spec_parse(v@) == Some(t.date_time@),
    {
        let r = expect_tag(v, "#EXT-X-PROGRAM-DATE-TIME:")?;
        Ok(ExtXProgramDateTime { date_time: string_of(&r) })
    }

    /// Parses the tag.
    pub fn try_from(input: &str) -> (res: Result<ExtXProgramDateTime, Error>)
        ensures
            res is Ok <==> Self::spec_parse(input@) is Some,
            res matches Ok(t) ==> Self::spec_parse(input@) == Some(t.date_time@),
    {
        Self::parse_chars(&chars_of(input))
    }
}

/// Reading the text of an `#EXT-X-PROGRAM-DATE-TIME` tag gives its date and time back,
/// when they do not end with white space.
pub proof fn lemma_program_date_time_roundtrip(t: ExtXProgramDateTime)
    requires
        t.date_time@.len() > 0 ==> !is_ws(t.date_time@.last()),
    ensures
        ExtXProgramDateTime::spec_parse(t.spec_to_string()) == Some(t.date_time@),
{
    reveal_strlit("#EXT-X-PROGRAM-DATE-TIME:");
    lemma_after_tag("#EXT-X-PROGRAM-DATE-TIME:"@, t.date_time@);
}

impl RequiredVersion for ExtXProgramDateTime {
    fn required_version(&self) -> (res: ProtocolVersion)
        ensures
            res == ProtocolVersion::V1,
    {
        ProtocolVersion::V1
    }
}

} // verus!
