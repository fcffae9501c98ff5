use vstd::prelude::*;

use crate::error::Error;
use crate::text::{chars_of, string_of, strip_quotes, unquote};

verus! {

/// A string of a playlist.
#[derive(Debug, Clone, PartialEq, Eq, PartialOrd, Ord, Hash)]
pub struct M3u8String(String);

impl M3u8String {
    /// The characters of the string.
    pub closed spec fn text(self) -> Seq<char> {
        self.0@
    }

    /// Makes a new string; every string is accepted.
    pub fn new(s: String) -> (res: Result<M3u8String, Error>)
        ensures
            res matches Ok(m) && m.text() == s@,
    {
        Ok(M3u8String(s))
    }

    /// The characters of the string.
    pub fn as_str(&self) -> (res: &str)
        ensures
            res@ == self.text(),
    {
        self.0.as_str()
    }

    /// The text of the string.
    pub fn to_string(&self) -> (res: String)
        ensures
            res@ == self.text(),
    {
        string_of(&chars_of(self.0.as_str()))
    }
}

/// A quoted string of an attribute list (RFC 8216, section 4.2).
#[derive(Debug, Clone, PartialEq, Eq, PartialOrd, Ord, Hash)]
pub struct QuotedString {
    value: String,
}

impl QuotedString {
    /// The text between the double quotes.
    pub closed spec fn inner(self) -> Seq<char> {
        self.value@
    }

    /// Makes a new quoted string. The characters that a quoted string must not hold
    /// (line feed, carriage return and `"`) are silently removed.
    pub fn new(value: &str) -> (res: QuotedString)
        ensures
            res.inner() == strip_quotes(value@),
    {
        QuotedString { value: string_of(&unquote(&chars_of(value))) }
    }

    /// The text of the quoted string, with its double quotes.
    pub fn as_string(&self) -> (res: String)
        ensures
            res@ == seq!['"'] + self.inner() + seq!['"'],
    {
        let mut out: Vec<char> = Vec::new();
        out.push('"');
        crate::text::push_string(&mut out, &self.value);
        out.push('"');
        string_of(&out)
    }

    /// The text of the quoted string, with its double quotes.
    pub fn to_string(&self) -> (res: String)
        ensures
            res@ == seq!['"'] + self.inner() + seq!['"'],
    {
        self.as_string()
    }

    /// The text without the double quotes.
    pub fn unquote(&self) -> (res: String)
        ensures
            res@ == self.inner(),
    {
        self.value.clone()
    }

    /// Makes a quoted string from any text (see [`QuotedString::new`]).
    pub fn try_from(s: &str) -> (res: Result<QuotedString, Error>)
        ensures
            res matches Ok(q) && q.inner() == strip_quotes(s@),
    {
        Ok(Self::new(s))
    }
}

/// The value `YES` of an attribute list.
#[derive(Debug, Clone, Copy, PartialEq, Eq, Structural, Hash)]
pub struct Yes;

impl Yes {
    /// The text `YES`.
    pub fn to_string(&self) -> (res: String)
        ensures
            res@ == "YES"@,
    {
        String::from_str("YES")
    }

    /// Accepts exactly the text `YES`.
    pub fn try_from(s: &str) -> (res: Result<Yes, Error>)
        ensures
            s@ == "YES"@ ==> res == Ok::<Yes, Error>(Yes),
            s@ != "YES"@ ==> res == Err::<Yes, Error>(Error::InvalidInput),
    {
        if crate::text::equals_str(&chars_of(s), "YES") {
            Ok(Yes)
        } else {
            Err(Error::InvalidInput)
        }
    }
}

} // verus!
