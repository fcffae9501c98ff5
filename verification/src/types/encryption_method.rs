use vstd::prelude::*;

use crate::attribute::AttrValue;
use crate::error::Error;
use crate::text::{chars_of, equals_str, push_str, string_of};

verus! {

/// How the media segments are encrypted (`METHOD`, RFC 8216 section 4.3.2.4).
#[derive(Debug, Clone, Copy, PartialEq, Eq, Structural, PartialOrd, Ord, Hash)]
pub enum EncryptionMethod {
    /// The segments are encrypted with AES-128 in CBC mode.
    Aes128,
    /// The media samples are encrypted with AES-128.
    SampleAes,
}

impl EncryptionMethod {
    /// The name of the value in a playlist.
    pub open spec fn name(self) -> Seq<char> {
        match self {
            EncryptionMethod::Aes128 => "AES-128"@,
            EncryptionMethod::SampleAes => "SAMPLE-AES"@,
        }
    }

    /// The value named `s`, if there is one.
    pub open spec fn spec_from_name(s: Seq<char>) -> Option<EncryptionMethod> {
        if s == "AES-128"@ {
            Some(EncryptionMethod::Aes128)
        } else if s == "SAMPLE-AES"@ {
            Some(EncryptionMethod::SampleAes)
        } else {
            None
        }
    }

    /// Reads the value from its name.
    pub fn parse_chars(v: &Vec<char>) -> (res: Result<EncryptionMethod, Error>)
        ensures
            res is Ok <==> Self::spec_from_name(v@) is Some,
            res matches Ok(x) ==> Self::spec_from_name(v@) == Some(x),
    {
        if equals_str(v, "AES-128") {
            Ok(EncryptionMethod::Aes128)
        } else if equals_str(v, "SAMPLE-AES") {
            Ok(EncryptionMethod::SampleAes)
        } else {
            Err(Error::InvalidInput)
        }
    }

    /// Reads the value from its name.
    pub fn try_from(input: &str) -> (res: Result<EncryptionMethod, Error>)
        ensures
            res is Ok <==> Self::spec_from_name(input@) is Some,
            res matches Ok(x) ==> Self::spec_from_name(input@) == Some(x),
    {
        Self::parse_chars(&chars_of(input))
    }

    /// Appends the name of the value to `out`.
    pub fn write(&self, out: &mut Vec<char>)
        ensures
            final(out)@ == old(out)@ + self.name(),
    {
        match self {
            EncryptionMethod::Aes128 => push_str(out, "AES-128"),
            EncryptionMethod::SampleAes => push_str(out, "SAMPLE-AES"),
        }
    }

    /// The name of the value.
    pub fn to_string(&self) -> (res: String)
        ensures
            res@ == self.name(),
    {
        let mut out = Vec::new();
        self.write(&mut out);
        string_of(&out)
    }
}

impl AttrValue for EncryptionMethod {
    open spec fn spec_value(s: Seq<char>) -> Option<EncryptionMethod> {
        Self::spec_from_name(s)
    }

    fn parse_value(v: &Vec<char>) -> (res: Result<EncryptionMethod, Error>) {
        Self::parse_chars(v)
    }
}

/// Reading the name of a value gives the value back.
pub proof fn lemma_encryption_method_roundtrip(x: EncryptionMethod)
    ensures
        EncryptionMethod::spec_from_name(x.name()) == Some(x),
{
    reveal_strlit("AES-128");
    reveal_strlit("SAMPLE-AES");
    assert("AES-128"@.len() != "SAMPLE-AES"@.len());
}

} // verus!
