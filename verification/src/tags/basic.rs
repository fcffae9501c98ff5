use vstd::prelude::*;

use crate::error::Error;
use crate::text::{after_tag, chars_of, expect_tag, lemma_after_tag, push_str, string_of};
use crate::traits::RequiredVersion;
use crate::types::{lemma_protocol_version_roundtrip, ProtocolVersion};

verus! {

/// The `#EXTM3U` tag: the file is an extended M3U playlist. It starts every
/// media playlist and every master playlist.
#[derive(Debug, Clone, Copy, PartialEq, Eq, Structural, PartialOrd, Ord, Hash)]
pub struct ExtM3u;

impl ExtM3u {
    /// The text of the tag.
    pub open spec fn spec_to_string(self) -> Seq<char> {
        "#EXTM3U"@
    }

    /// A line is the tag when it starts with `#EXTM3U`, once trimmed.
    pub open spec fn spec_parse(s: Seq<char>) -> Option<ExtM3u> {
        match after_tag(s, "#EXTM3U"@) {
            Some(_) => Some(ExtM3u),
            None => None,
        }
    }

    /// Parses the tag from the characters of a line.
    pub fn parse_chars(v: &Vec<char>) -> (res: Result<ExtM3u, Error>)
        ensures
            Self::spec_parse(v@) matches Some(t) ==> res == Ok::<ExtM3u, Error>(t),
            Self::spec_parse(v@) is None ==> (res matches Err(Error::MissingTag { tag, input })
                && tag@ == "#EXTM3U"@ && input@ == v@),
    {
        expect_tag(v, "#EXTM3U")?;
        Ok(ExtM3u)
    }

    /// Parses the tag.
    pub fn try_from(input: &str) -> (res: Result<ExtM3u, Error>)
        ensures
            Self::spec_parse(input@) matches Some(t) ==> res == Ok::<ExtM3u, Error>(t),
            Self::spec_parse(input@) is None ==> res is Err,
    {
        Self::parse_chars(&chars_of(input))
    }

    /// Appends the text of the tag to `out`.
    pub fn write(&self, out: &mut Vec<char>)
        ensures
            final(out)@ == old(out)@ + self.spec_to_string(),
    {
        push_str(out, "#EXTM3U");
    }

    /// The text of the tag.
    pub fn to_string(&self) -> (res: String)
        ensures
            res@ == self.spec_to_string(),
    {
        let mut out = Vec::new();
        self.write(&mut out);
        string_of(&out)
    }

    /// This tag requires [`ProtocolVersion::V1`].
    pub fn required_version(&self) -> (res: ProtocolVersion)
        ensures
            res == ProtocolVersion::V1,
    {
        ProtocolVersion::V1
    }
}

impl RequiredVersion for ExtM3u {
    fn required_version(&self) -> (res: ProtocolVersion)
        ensures
            res == ProtocolVersion::V1,
    {
        ProtocolVersion::V1
    }
}

/// Reading the text of `#EXTM3U` gives the tag back.
pub proof fn lemma_ext_m3u_roundtrip(t: ExtM3u)
    ensures
        ExtM3u::spec_parse(t.spec_to_string()) == Some(t),
{
    reveal_strlit("#EXTM3U");
    lemma_after_tag("#EXTM3U"@, Seq::<char>::empty());
    assert("#EXTM3U"@ + Seq::<char>::empty() == "#EXTM3U"@);
}

/// The `#EXT-X-VERSION` tag: the compatibility version of the playlist.
#[derive(Debug, Clone, Copy, PartialEq, Eq, Structural, PartialOrd, Ord, Hash)]
pub struct ExtXVersion(pub ProtocolVersion);

impl ExtXVersion {
    /// Makes a new [`ExtXVersion`] tag.
    pub fn new(version: ProtocolVersion) -> (res: ExtXVersion)
        ensures
            res.0 == version,
    {
        ExtXVersion(version)
    }

    /// Returns the underlying [`ProtocolVersion`].
    pub fn version(self) -> (res: ProtocolVersion)
        ensures
            res == self.0,
    {
        self.0
    }

    /// Makes a new [`ExtXVersion`] tag from a [`ProtocolVersion`].
    pub fn from(version: ProtocolVersion) -> (res: ExtXVersion)
        ensures
            res.0 == version,
    {
        ExtXVersion(version)
    }

    /// The text of the tag.
    pub open spec fn spec_to_string(self) -> Seq<char> {
        "#EXT-X-VERSION:"@ + self.0.spec_to_string()
    }

    /// The tag that the line `s` holds: `#EXT-X-VERSION:` and a version number.
    pub open spec fn spec_parse(s: Seq<char>) -> Option<ExtXVersion> {
        match after_tag(s, "#EXT-X-VERSION:"@) {
            Some(r) => match ProtocolVersion::spec_parse(r) {
                Some(p) => Some(ExtXVersion(p)),
                None => None,
            },
            None => None,
        }
    }

    /// Parses the tag from the characters of a line.
    pub fn parse_chars(v: &Vec<char>) -> (res: Result<ExtXVersion, Error>)
        ensures
            res is Ok <==> Self::spec_parse(v@) is Some,
            res matches Ok(t) ==> Self::spec_parse(v@) == Some(t),
            after_tag(v@, "#EXT-X-VERSION:"@) is None ==> (res matches Err(
                Error::MissingTag { tag, input },
            ) && tag@ == "#EXT-X-VERSION:"@ && input@ == v@),
            after_tag(v@, "#EXT-X-VERSION:"@) matches Some(r) ==> (ProtocolVersion::spec_parse(r)
                is None ==> (res matches Err(Error::UnknownProtocolVersion(x)) && x@ == r)),
    {
        let r = expect_tag(v, "#EXT-X-VERSION:")?;
        let p = ProtocolVersion::parse_chars(&r)?;
        Ok(ExtXVersion(p))
    }

    /// Parses the tag.
    pub fn try_from(input: &str) -> (res: Result<ExtXVersion, Error>)
        ensures
            res is Ok <==> Self::spec_parse(input@) is Some,
            res matches Ok(t) ==> Self::spec_parse(input@) == Some(t),
    {
        Self::parse_chars(&chars_of(input))
    }

    /// Appends the text of the tag to `out`.
    pub fn write(&self, out: &mut Vec<char>)
        ensures
            final(out)@ == old(out)@ + self.spec_to_string(),
    {
        push_str(out, "#EXT-X-VERSION:");
        self.0.write(out);
    }

    /// The text of the tag.
    pub fn to_string(&self) -> (res: String)
        ensures
            res@ == self.spec_to_string(),
    {
        let mut out = Vec::new();
        self.write(&mut out);
        string_of(&out)
    }
}

impl RequiredVersion for ExtXVersion {
    fn required_version(&self) -> (res: ProtocolVersion)
        ensures
            res == ProtocolVersion::V1,
    {
        ProtocolVersion::V1
    }
}

/// The default version tag names [`ProtocolVersion::V1`].
impl Default for ExtXVersion {
    fn default() -> (res: ExtXVersion)
        ensures
            res.0 == ProtocolVersion::V1,
    {
        ExtXVersion(ProtocolVersion::V1)
    }
}

/// Reading the text of a version tag gives the tag back.
pub proof fn lemma_ext_x_version_roundtrip(t: ExtXVersion)
    ensures
        ExtXVersion::spec_parse(t.spec_to_string()) == Some(t),
{
    reveal_strlit("#EXT-X-VERSION:");
    let b = t.0.spec_to_string();
    assert(b.last() == b[0]);
    lemma_after_tag("#EXT-X-VERSION:"@, b);
    lemma_protocol_version_roundtrip(t.0);
}

} // verus!
