use vstd::prelude::*;

use crate::attribute::AttrValue;
use crate::error::Error;
use crate::text::{chars_of, equals_str, push_str, string_of};

verus! {

/// The HDCP level that a stream needs to be played
/// (`HDCP-LEVEL`, RFC 8216 section 4.3.4.2).
#[derive(Debug, Clone, Copy, PartialEq, Eq, Structural, PartialOrd, Ord, Hash)]
pub enum HdcpLevel {
    /// The stream may fail to play unless the output is protected by HDCP Type 0.
    Type0,
    /// The stream may fail to play unless the output is protected by HDCP Type 1.
    Type1,
    /// The content does not require output copy protection.
    NotRequired,
}

impl HdcpLevel {
    /// The name of the value in a playlist.
    pub open spec fn name(self) -> Seq<char> {
        match self {
            HdcpLevel::Type0 => "TYPE-0"@,
            HdcpLevel::Type1 => "TYPE-1"@,
            HdcpLevel::NotRequired => "NONE"@,
        }
    }

    /// The value named `s`, if there is one.
    pub open spec fn spec_from_name(s: Seq<char>) -> Option<HdcpLevel> {
        if s == "TYPE-0"@ {
            Some(HdcpLevel::Type0)
        } else if s == "TYPE-1"@ {
            Some(HdcpLevel::Type1)
        } else if s == "NONE"@ {
            Some(HdcpLevel::NotRequired)
        } else {
            None
        }
    }

    /// Reads the value from its name.
    pub fn parse_chars(v: &Vec<char>) -> (res: Result<HdcpLevel, Error>)
        ensures
            res is Ok <==> Self::spec_from_name(v@) is Some,
            res matches Ok(x) ==> Self::spec_from_name(v@) == Some(x),
    {
        if equals_str(v, "TYPE-0") {
            Ok(HdcpLevel::Type0)
        } else if equals_str(v, "TYPE-1") {
            Ok(HdcpLevel::Type1)
        } else if equals_str(v, "NONE") {
            Ok(HdcpLevel::NotRequired)
        } else {
            Err(Error::InvalidInput)
        }
    }

    /// Reads the value from its name.
    pub fn try_from(input: &str) -> (res: Result<HdcpLevel, Error>)
        ensures
            res is Ok <==> Self::spec_from_name(input@) is Some,
            res matches Ok(x) ==> Self::spec_from_name(input@) == Some(x),
    {
        Self::parse_chars(&chars_of(input))
    }

    /// Appends the name of the value to `out`.
    pub fn write(&self, out: &mut Vec<char>)
        ensures
            final(out)@ == old(out)@ + self.name(),
    {
        match self {
            HdcpLevel::Type0 => push_str(out, "TYPE-0"),
            HdcpLevel::Type1 => push_str(out, "TYPE-1"),
            HdcpLevel::NotRequired => push_str(out, "NONE"),
        }
    }

    /// The name of the value.
    pub fn to_string(&self) -> (res: String)
        ensures
            res@ == self.name(),
    {
        let mut out = Vec::new();
        self.write(&mut out);
        string_of(&out)
    }
}

impl AttrValue for HdcpLevel {
    open spec fn spec_value(s: Seq<char>) -> Option<HdcpLevel> {
        Self::spec_from_name(s)
    }

    fn parse_value(v: &Vec<char>) -> (res: Result<HdcpLevel, Error>) {
        Self::parse_chars(v)
    }
}

/// Reading the name of a value gives the value back.
pub proof fn lemma_hdcp_level_roundtrip(x: HdcpLevel)
    ensures
        HdcpLevel::spec_from_name(x.name()) == Some(x),
{
    reveal_strlit("TYPE-0");
    reveal_strlit("TYPE-1");
    reveal_strlit("NONE");
    assert("TYPE-0"@[5] != "TYPE-1"@[5]);
    assert("TYPE-0"@.len() != "NONE"@.len());
    assert("TYPE-1"@.len() != "NONE"@.len());
}

} // verus!
