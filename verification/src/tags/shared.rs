use vstd::prelude::*;

use crate::attribute::{
    attr_list, attr_ok, attr_pairs, attr_val, lemma_attr_list_push, lemma_attr_roundtrip,
    lemma_plain_key, lemma_plain_value, lemma_values_for_push, lemma_wf_pairs_push, pairs_of,
    parse_attr, AttrValue,
};
use crate::error::Error;
use crate::text::{
    after_tag, chars_of, decimal_text, expect_tag, is_ws, lemma_after_tag,
    lemma_decimal_text_plain, push_str, string_of,
};
use crate::traits::RequiredVersion;
use crate::types::{lemma_float_roundtrip, lemma_float_view, Float, ProtocolVersion};

verus! {

/// The `#EXT-X-INDEPENDENT-SEGMENTS` tag: each media sample can be decoded without
/// information from other segments.
#[derive(Debug, Clone, Copy, PartialEq, Eq, Structural, PartialOrd, Ord, Hash)]
pub struct ExtXIndependentSegments;

impl ExtXIndependentSegments {
    /// This tag requires protocol version 1.
    pub fn required_version(&self) -> (res: ProtocolVersion)
        ensures
            res == ProtocolVersion::V1,
    {
        ProtocolVersion::V1
    }

    /// The text of the tag.
    pub open spec fn spec_to_string(self) -> Seq<char> {
        "#EXT-X-INDEPENDENT-SEGMENTS"@
    }

    /// A line is the tag when it starts with `#EXT-X-INDEPENDENT-SEGMENTS`, once
    /// trimmed.
    pub open spec fn spec_parse(s: Seq<char>) -> Option<ExtXIndependentSegments> {
        match after_tag(s, "#EXT-X-INDEPENDENT-SEGMENTS"@) {
            Some(_) => Some(ExtXIndependentSegments),
            None => None,
        }
    }

    /// The text of the tag.
    pub fn to_string(&self) -> (res: String)
        ensures
            res@ == self.spec_to_string(),
    {
        String::from_str("#EXT-X-INDEPENDENT-SEGMENTS")
    }

    /// Parses the tag from the characters of a line.
    pub fn parse_chars(v: &Vec<char>) -> (res: Result<ExtXIndependentSegments, Error>)
        ensures
            res is Ok <==> Self::spec_parse(v@) is Some,
    {
        expect_tag(v, "#EXT-X-INDEPENDENT-SEGMENTS")?;
        Ok(ExtXIndependentSegments)
    }

    /// Parses the tag.
    pub fn try_from(input: &str) -> (res: Result<ExtXIndependentSegments, Error>)
        ensures
            res is Ok <==> Self::spec_parse(input@) is Some,
    {
        Self::parse_chars(&chars_of(input))
    }
}

impl RequiredVersion for ExtXIndependentSegments {
    fn required_version(&self) -> (res: ProtocolVersion)
        ensures
            res == ProtocolVersion::V1,
    {
        ProtocolVersion::V1
    }
}

/// Reading the text of `#EXT-X-INDEPENDENT-SEGMENTS` gives the tag back.
pub proof fn lemma_independent_segments_roundtrip(t: ExtXIndependentSegments)
    ensures
        ExtXIndependentSegments::spec_parse(t.spec_to_string()) == Some(t),
{
    reveal_strlit("#EXT-X-INDEPENDENT-SEGMENTS");
    lemma_after_tag("#EXT-X-INDEPENDENT-SEGMENTS"@, Seq::<char>::empty());
    assert("#EXT-X-INDEPENDENT-SEGMENTS"@ + Seq::<char>::empty() == "#EXT-X-INDEPENDENT-SEGMENTS"@);
}

/// The `#EXT-X-START` tag: where playback should preferably start.
#[derive(Debug, Clone, Copy, PartialEq, Eq, Structural, PartialOrd, Ord, Hash)]
pub struct ExtXStart {
    time_offset: Float,
    is_precise: bool,
}

/// The offset and precision that the attribute list `ps` of an `#EXT-X-START` tag gives.
pub open spec fn start_of_pairs(ps: Seq<(Seq<char>, Seq<char>)>) -> Option<(Float, bool)> {
    if attr_ok::<Float>(ps, "TIME-OFFSET"@) && attr_ok::<bool>(ps, "PRECISE"@) {
        match attr_val::<Float>(ps, "TIME-OFFSET"@) {
            Some(t) => Some(
                (
                    t,
                    match attr_val::<bool>(ps, "PRECISE"@) {
                        Some(b) => b,
                        None => false,
                    },
                ),
            ),
            None => None,
        }
    } else {
        None
    }
}

impl ExtXStart {
    /// The offset from the start of the playlist (or from its end, when negative).
    pub closed spec fn offset(self) -> Float {
        self.time_offset
    }

    /// Whether playback starts exactly at the offset.
    pub closed spec fn precise(self) -> bool {
        self.is_precise
    }

    /// The tag with the offset `time_offset` and the precision `is_precise`.
    pub closed spec fn spec_from(time_offset: Float, is_precise: bool) -> ExtXStart {
        ExtXStart { time_offset, is_precise }
    }

    /// A tag is the one made from its offset and precision.
    pub proof fn lemma_from_parts(t: ExtXStart)
        ensures
            t == ExtXStart::spec_from(t.offset(), t.precise()),
    {
    }

    /// A tag with the given offset, not precise.
    pub fn new(time_offset: Float) -> (res: ExtXStart)
        ensures
            res.offset() == time_offset,
            !res.precise(),
    {
        ExtXStart { time_offset, is_precise: false }
    }

    /// A tag with the given offset and precision.
    pub fn with_precise(time_offset: Float, is_precise: bool) -> (res: ExtXStart)
        ensures
            res.offset() == time_offset,
            res.precise() == is_precise,
    {
        ExtXStart { time_offset, is_precise }
    }

    /// The offset.
    pub fn time_offset(&self) -> (res: Float)
        ensures
            res == self.offset(),
    {
        self.time_offset
    }

    /// Sets the offset.
    pub fn set_time_offset(&mut self, value: Float)
        ensures
            final(self).offset() == value,
            final(self).precise() == old(self).precise(),
    {
        self.time_offset = value;
    }

    /// Whether playback starts exactly at the offset.
    pub fn is_precise(&self) -> (res: bool)
        ensures
            res == self.precise(),
    {
        self.is_precise
    }

    /// Sets whether playback starts exactly at the offset.
    pub fn set_is_precise(&mut self, value: bool)
        ensures
            final(self).offset() == old(self).offset(),
            final(self).precise() == value,
    {
        self.is_precise = value;
    }

    /// This tag requires protocol version 1.
    pub fn required_version(&self) -> (res: ProtocolVersion)
        ensures
            res == ProtocolVersion::V1,
    {
        ProtocolVersion::V1
    }

    /// The text of the tag.
    pub open spec fn spec_to_string(self) -> Seq<char> {
        "#EXT-X-START:"@ + "TIME-OFFSET="@ + self.offset().spec_to_string() + if self.precise() {
            ",PRECISE=YES"@
        } else {
            seq![]
        }
    }

    /// The offset and precision that the line `s` holds.
    pub open spec fn spec_parse(s: Seq<char>) -> Option<(Float, bool)> {
        match after_tag(s, "#EXT-X-START:"@) {
            Some(r) => start_of_pairs(attr_pairs(r)),
            None => None,
        }
    }

    /// Appends the text of the tag to `out`.
    pub fn write(&self, out: &mut Vec<char>)
        ensures
            final(out)@ == old(out)@ + self.spec_to_string(),
    {
        let ghost start = out@;
        push_str(out, "#EXT-X-START:");
        push_str(out, "TIME-OFFSET=");
        self.time_offset.write(out);
        if self.is_precise {
            push_str(out, ",PRECISE=YES");
        }
        assert(out@ =~= start + self.spec_to_string());
    }

    /// The text of the tag.
    pub fn to_string(&self) -> (res: String)
        ensures
            res@ == self.spec_to_string(),
    {
        let mut out = Vec::new();
        self.write(&mut out);
        string_of(&out)
    }

    /// Parses the tag from the characters of a line.
    pub fn parse_chars(v: &Vec<char>) -> (res: Result<ExtXStart, Error>)
        ensures
            res is Ok <==> Self::spec_parse(v@) is Some,
            res matches Ok(t) ==> Self::spec_parse(v@) == Some((t.offset(), t.precise())),
    {
        let r = expect_tag(v, "#EXT-X-START:")?;
        let pairs = pairs_of(&r);
        let time_offset = parse_attr::<Float>(&pairs, "TIME-OFFSET")?;
        let precise = parse_attr::<bool>(&pairs, "PRECISE")?;
        let time_offset = match time_offset {
            Some(t) => t,
            None => {
                return Err(Error::MissingValue { value: String::from_str("TIME-OFFSET") });
            },
        };
        let is_precise = match precise {
            Some(b) => b,
            None => false,
        };
        Ok(ExtXStart { time_offset, is_precise })
    }

    /// Parses the tag.
    pub fn try_from(input: &str) -> (res: Result<ExtXStart, Error>)
        ensures
            res is Ok <==> Self::spec_parse(input@) is Some,
            res matches Ok(t) ==> Self::spec_parse(input@) == Some((t.offset(), t.precise())),
    {
        Self::parse_chars(&chars_of(input))
    }
}

/// Reading the text of an `#EXT-X-START` tag gives its offset and precision back, when
/// the offset is written exactly (nanoseconds below a second, and no negative zero).
pub proof fn lemma_start_roundtrip(t: ExtXStart)
    requires
        t.offset()@.2 < 1_000_000_000,
        t.offset()@.0 ==> t.offset()@.1 != 0 || t.offset()@.2 != 0,
    ensures
        ExtXStart::spec_parse(t.spec_to_string()) == Some((t.offset(), t.precise())),
{
    reveal_strlit("#EXT-X-START:");
    reveal_strlit("TIME-OFFSET=");
    reveal_strlit(",PRECISE=YES");
    reveal_strlit("TIME-OFFSET");
    reveal_strlit("PRECISE");
    reveal_strlit("YES");
    let kt = "TIME-OFFSET"@;
    let kp = "PRECISE"@;
    assert(kt.len() != kp.len());
    let x = t.offset();
    let ft = x.spec_to_string();
    let d = decimal_text(x@.1 as nat, x@.2 as nat);
    lemma_decimal_text_plain(x@.1 as nat, x@.2 as nat);
    assert forall|i: int| 0 <= i < ft.len() implies ft[i] != '"' && ft[i] != ',' && (i > 0
        ==> !is_ws(#[trigger] ft[i])) by {
        if x@.0 {
            if i > 0 {
                assert(ft[i] == d[i - 1]);
            }
        } else {
            assert(ft[i] == d[i]);
        }
    }
    assert(ft.len() > 0 && !is_ws(ft[0]));
    assert(ft.last() == ft[ft.len() - 1]);
    lemma_plain_value(ft);
    lemma_plain_key(kt);
    lemma_plain_key(kp);
    lemma_plain_value("YES"@);
    let a = (kt, ft);
    let b = (kp, "YES"@);
    let e = Seq::<(Seq<char>, Seq<char>)>::empty();
    let p0 = e.push(a);
    lemma_attr_list_push(e, a);
    lemma_wf_pairs_push(e, a);
    lemma_values_for_push(e, a, kt);
    lemma_values_for_push(e, a, kp);
    lemma_float_roundtrip(x);
    if let Some(c) = Float::spec_value(ft) {
        lemma_float_view(c, x);
    }
    let body = "TIME-OFFSET="@ + ft + if t.precise() {
        ",PRECISE=YES"@
    } else {
        seq![]
    };
    if t.precise() {
        let ps = p0.push(b);
        lemma_attr_list_push(p0, b);
        lemma_wf_pairs_push(p0, b);
        lemma_values_for_push(p0, b, kt);
        lemma_values_for_push(p0, b, kp);
        assert(body =~= attr_list(ps));
        lemma_attr_roundtrip(ps);
        assert(body.last() == 'S');
    } else {
        assert(body =~= attr_list(p0));
        lemma_attr_roundtrip(p0);
        assert(body.last() == ft.last());
    }
    assert(t.spec_to_string() == "#EXT-X-START:"@ + body);
    lemma_after_tag("#EXT-X-START:"@, body);
}

impl RequiredVersion for ExtXStart {
    fn required_version(&self) -> (res: ProtocolVersion)
        ensures
            res == ProtocolVersion::V1,
    {
        ProtocolVersion::V1
    }
}

} // verus!
