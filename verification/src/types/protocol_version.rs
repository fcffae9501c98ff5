use vstd::prelude::*;

use crate::error::Error;
use crate::text::{chars_of, digit_char, digit_value, is_ws, string_of, trim, trim_end, trim_start, trimmed};

verus! {

/// The version of the HLS protocol that a playlist or a tag needs
/// ([RFC 8216, section 7](https://tools.ietf.org/html/rfc8216#section-7)).
#[derive(Debug, Clone, Copy, PartialEq, Eq, Structural, PartialOrd, Ord, Hash)]
pub enum ProtocolVersion {
    V1,
    V2,
    V3,
    V4,
    V5,
    V6,
    V7,
}

impl ProtocolVersion {
    /// The number of the version (1 to 7).
    pub open spec fn number(self) -> nat {
        match self {
            ProtocolVersion::V1 => 1,
            ProtocolVersion::V2 => 2,
            ProtocolVersion::V3 => 3,
            ProtocolVersion::V4 => 4,
            ProtocolVersion::V5 => 5,
            ProtocolVersion::V6 => 6,
            ProtocolVersion::V7 => 7,
        }
    }

    /// The version with the given number.
    pub open spec fn from_number(n: nat) -> ProtocolVersion {
        if n <= 1 {
            ProtocolVersion::V1
        } else if n == 2 {
            ProtocolVersion::V2
        } else if n == 3 {
            ProtocolVersion::V3
        } else if n == 4 {
            ProtocolVersion::V4
        } else if n == 5 {
            ProtocolVersion::V5
        } else if n == 6 {
            ProtocolVersion::V6
        } else {
            ProtocolVersion::V7
        }
    }

    /// The greater of two versions.
    pub open spec fn spec_max(self, other: ProtocolVersion) -> ProtocolVersion {
        if self.number() >= other.number() {
            self
        } else {
            other
        }
    }

    /// The number of the version.
    pub fn as_u8(self) -> (res: u8)
        ensures
            res == self.number(),
    {
        match self {
            ProtocolVersion::V1 => 1,
            ProtocolVersion::V2 => 2,
            ProtocolVersion::V3 => 3,
            ProtocolVersion::V4 => 4,
            ProtocolVersion::V5 => 5,
            ProtocolVersion::V6 => 6,
            ProtocolVersion::V7 => 7,
        }
    }

    /// The greater of two versions.
    pub fn max(self, other: ProtocolVersion) -> (res: ProtocolVersion)
        ensures
            res == self.spec_max(other),
    {
        if self.as_u8() >= other.as_u8() {
            self
        } else {
            other
        }
    }

    /// Returns the latest [`ProtocolVersion`] that is supported by this library.
    pub fn latest() -> (res: ProtocolVersion)
        ensures
            res == ProtocolVersion::V7,
    {
        ProtocolVersion::V7
    }

    /// The text of the version: its number.
    pub open spec fn spec_to_string(self) -> Seq<char> {
        seq![digit_char(self.number())]
    }

    /// The version that `s` names, after trimming white space.
    pub open spec fn spec_parse(s: Seq<char>) -> Option<ProtocolVersion> {
        let t = trim(s);
        if t.len() == 1 && '1' <= t[0] && t[0] <= '7' {
            Some(ProtocolVersion::from_number(digit_value(t[0])))
        } else {
            None
        }
    }

    /// Appends the text of the version to `out`.
    pub fn write(self, out: &mut Vec<char>)
        ensures
            final(out)@ == old(out)@ + self.spec_to_string(),
    {
        let c = (48u8 + self.as_u8()) as char;
        out.push(c);
    }

    /// The text of the version.
    pub fn to_string(&self) -> (res: String)
        ensures
            res@ == self.spec_to_string(),
    {
        let mut out: Vec<char> = Vec::new();
        self.write(&mut out);
        string_of(&out)
    }

    /// Parses a version from the characters of `v`.
    pub fn parse_chars(v: &Vec<char>) -> (res: Result<ProtocolVersion, Error>)
        ensures
            res is Ok <==> Self::spec_parse(v@) is Some,
            res matches Ok(p) ==> Self::spec_parse(v@) == Some(p),
            res is Err ==> (res matches Err(Error::UnknownProtocolVersion(s)) && s@ == v@),
    {
        let t = trimmed(v, 0, v.len());
        assert(v@.subrange(0, v@.len() as int) == v@);
        if t.len() == 1 {
            let c = t[0];
            if c == '1' {
                return Ok(ProtocolVersion::V1);
            } else if c == '2' {
                return Ok(ProtocolVersion::V2);
            } else if c == '3' {
                return Ok(ProtocolVersion::V3);
            } else if c == '4' {
                return Ok(ProtocolVersion::V4);
            } else if c == '5' {
                return Ok(ProtocolVersion::V5);
            } else if c == '6' {
                return Ok(ProtocolVersion::V6);
            } else if c == '7' {
                return Ok(ProtocolVersion::V7);
            }
        }
        Err(Error::UnknownProtocolVersion(string_of(v)))
    }

    /// Parses a version number such as `"6"`.
    pub fn try_from(input: &str) -> (res: Result<ProtocolVersion, Error>)
        ensures
            res is Ok <==> Self::spec_parse(input@) is Some,
            res matches Ok(p) ==> Self::spec_parse(input@) == Some(p),
    {
        let v = chars_of(input);
        Self::parse_chars(&v)
    }
}

/// The version parsed from the text of a version is that version.
pub proof fn lemma_protocol_version_roundtrip(p: ProtocolVersion)
    ensures
        ProtocolVersion::spec_parse(p.spec_to_string()) == Some(p),
{
    let s = p.spec_to_string();
    assert(!is_ws(s[0]));
    assert(trim_start(s.drop_first()) == s.drop_first());
    assert(trim_start(s) == s);
    assert(trim_end(s.drop_last()) == s.drop_last());
    assert(trim(s) == s);
}

/// The first version is the default one.
impl Default for ProtocolVersion {
    fn default() -> (res: ProtocolVersion)
        ensures
            res == ProtocolVersion::V1,
    {
        ProtocolVersion::V1
    }
}

} // verus!
