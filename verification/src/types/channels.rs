use vstd::prelude::*;

use crate::attribute::AttrValue;
use crate::error::Error;
use crate::text::{
    chars_of, dec, expect_unsigned, find_char, lemma_find_char, parse_unsigned, position,
    push_u64, slice_of, string_of,
};

verus! {

/// The audio channels of a rendition (`CHANNELS`, RFC 8216 section 4.3.4.1): the
/// number of independent, simultaneous audio channels.
#[derive(Debug, Clone, Copy, PartialEq, Eq, Structural, PartialOrd, Ord, Hash)]
pub struct Channels {
    number: u64,
}

/// The part of a `CHANNELS` value before its first `/`.
pub open spec fn first_parameter(s: Seq<char>) -> Seq<char> {
    match find_char(s, '/') {
        Some(k) => s.take(k),
        None => s,
    }
}

/// The channel count that the text `s` gives in its first parameter.
pub open spec fn channels_of_text(s: Seq<char>) -> Option<u64> {
    match parse_unsigned(first_parameter(s), u64::MAX as nat) {
        Some(n) => Some(n as u64),
        None => None,
    }
}

impl Channels {
    /// The number of channels.
    pub closed spec fn count(self) -> u64 {
        self.number
    }

    /// The channels with the given count.
    pub closed spec fn spec_new(number: u64) -> Channels {
        Channels { number }
    }

    /// `spec_new` keeps the count, and it is the only channels value with that count.
    pub proof fn lemma_spec_new(number: u64, c: Channels)
        ensures
            Channels::spec_new(number).count() == number,
            c.count() == number ==> c == Channels::spec_new(number),
    {
    }

    /// Makes a new value with the given number of channels.
    pub fn new(number: u64) -> (res: Channels)
        ensures
            res.count() == number,
    {
        Channels { number }
    }

    /// The number of channels.
    pub fn number(&self) -> (res: u64)
        ensures
            res == self.count(),
    {
        self.number
    }

    /// Sets the number of channels.
    pub fn set_number(&mut self, value: u64)
        ensures
            final(self).count() == value,
    {
        self.number = value;
    }

    /// The text of the value: the number of channels.
    pub open spec fn spec_to_string(self) -> Seq<char> {
        dec(self.count() as nat)
    }

    /// Appends the text of the value to `out`.
    pub fn write(&self, out: &mut Vec<char>)
        ensures
            final(out)@ == old(out)@ + self.spec_to_string(),
    {
        push_u64(out, self.number);
    }

    /// The text of the value.
    pub fn to_string(&self) -> (res: String)
        ensures
            res@ == self.spec_to_string(),
    {
        let mut out = Vec::new();
        self.write(&mut out);
        string_of(&out)
    }

    /// Reads the value from its text: the count before the first `/`.
    pub fn parse_chars(v: &Vec<char>) -> (res: Result<Channels, Error>)
        ensures
            res is Ok <==> channels_of_text(v@) is Some,
            res matches Ok(c) ==> channels_of_text(v@) == Some(c.count()),
    {
        assert(v@.subrange(0, v.len() as int) == v@);
        let end = match position(v, 0, v.len(), '/') {
            Some(k) => {
                proof {
                    lemma_find_char(v@, '/');
                }
                k
            },
            None => v.len(),
        };
        let first = slice_of(v, 0, end);
        assert(first@ == first_parameter(v@));
        let n = expect_unsigned(&first, u64::MAX)?;
        Ok(Channels { number: n })
    }

    /// Reads the value from its text.
    pub fn try_from(input: &str) -> (res: Result<Channels, Error>)
        ensures
            res is Ok <==> channels_of_text(input@) is Some,
            res matches Ok(c) ==> channels_of_text(input@) == Some(c.count()),
    {
        Self::parse_chars(&chars_of(input))
    }
}

impl AttrValue for Channels {
    open spec fn spec_value(s: Seq<char>) -> Option<Channels> {
        match channels_of_text(s) {
            Some(n) => Some(Channels::spec_new(n)),
            None => None,
        }
    }

    fn parse_value(v: &Vec<char>) -> (res: Result<Channels, Error>) {
        let r = Self::parse_chars(v);
        proof {
            if let Ok(c) = r {
                Channels::lemma_spec_new(c.count(), c);
            }
        }
        r
    }
}

/// Reading the text of a channels value gives the value back.
pub proof fn lemma_channels_roundtrip(c: Channels)
    ensures
        channels_of_text(c.spec_to_string()) == Some(c.count()),
{
    let d = dec(c.count() as nat);
    crate::text::lemma_dec(c.count() as nat);
    lemma_find_char(d, '/');
    if let Some(k) = find_char(d, '/') {
        assert(crate::text::is_digit(d[k]));
    }
    assert(crate::text::unsigned_digits(d) == d);
}

} // verus!
