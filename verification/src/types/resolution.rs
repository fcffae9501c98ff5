use vstd::prelude::*;

use crate::attribute::AttrValue;
use crate::error::Error;
use crate::text::{
    chars_of, dec, expect_unsigned, find_char, lemma_find_char, parse_unsigned, position,
    push_u64, slice_of, string_of,
};

verus! {

/// The pixel resolution of a video: `<width>x<height>`.
#[derive(Debug, Clone, Copy, PartialEq, Eq, Structural, PartialOrd, Ord, Hash)]
pub struct Resolution {
    /// The horizontal pixel dimension.
    pub width: usize,
    /// The vertical pixel dimension.
    pub height: usize,
}

/// The resolution that the text `s` (`<width>x<height>`) denotes.
pub open spec fn resolution_of_text(s: Seq<char>) -> Option<Resolution> {
    match find_char(s, 'x') {
        None => None,
        Some(k) => match (parse_unsigned(s.take(k), usize::MAX as nat), parse_unsigned(
            s.skip(k + 1),
            usize::MAX as nat,
        )) {
            (Some(w), Some(h)) => Some(Resolution { width: w as usize, height: h as usize }),
            _ => None,
        },
    }
}

impl Resolution {
    /// The resolution `width`x`height`.
    pub fn new(width: usize, height: usize) -> (res: Resolution)
        ensures
            res.width == width,
            res.height == height,
    {
        Resolution { width, height }
    }

    /// The horizontal pixel dimension.
    pub fn width(&self) -> (res: usize)
        ensures
            res == self.width,
    {
        self.width
    }

    /// The vertical pixel dimension.
    pub fn height(&self) -> (res: usize)
        ensures
            res == self.height,
    {
        self.height
    }

    /// The text of the resolution.
    pub open spec fn spec_to_string(self) -> Seq<char> {
        dec(self.width as nat) + seq!['x'] + dec(self.height as nat)
    }

    /// Appends the text of the resolution to `out`.
    pub fn write(&self, out: &mut Vec<char>)
        ensures
            final(out)@ == old(out)@ + self.spec_to_string(),
    {
        push_u64(out, self.width as u64);
        out.push('x');
        push_u64(out, self.height as u64);
    }

    /// The text of the resolution (`<width>x<height>`).
    pub fn to_string(&self) -> (res: String)
        ensures
            res@ == self.spec_to_string(),
    {
        let mut out = Vec::new();
        self.write(&mut out);
        string_of(&out)
    }

    /// Reads a resolution from its text.
    pub fn parse_chars(v: &Vec<char>) -> (res: Result<Resolution, Error>)
        ensures
            res is Ok <==> resolution_of_text(v@) is Some,
            res matches Ok(r) ==> resolution_of_text(v@) == Some(r),
    {
        assert(v@.subrange(0, v.len() as int) == v@);
        match position(v, 0, v.len(), 'x') {
            None => Err(Error::InvalidInput),
            Some(k) => {
                proof {
                    lemma_find_char(v@, 'x');
                }
                let left = slice_of(v, 0, k);
                let right = slice_of(v, k + 1, v.len());
                assert(left@ == v@.take(k as int));
                assert(right@ == v@.skip(k + 1));
                let w = expect_unsigned(&left, usize::MAX as u64)?;
                let h = expect_unsigned(&right, usize::MAX as u64)?;
                Ok(Resolution { width: w as usize, height: h as usize })
            },
        }
    }

    /// Reads a resolution from its text (`<width>x<height>`).
    pub fn try_from(input: &str) -> (res: Result<Resolution, Error>)
        ensures
            res is Ok <==> resolution_of_text(input@) is Some,
            res matches Ok(r) ==> resolution_of_text(input@) == Some(r),
    {
        Self::parse_chars(&chars_of(input))
    }
}

impl AttrValue for Resolution {
    open spec fn spec_value(s: Seq<char>) -> Option<Resolution> {
        resolution_of_text(s)
    }

    fn parse_value(v: &Vec<char>) -> (res: Result<Resolution, Error>) {
        Self::parse_chars(v)
    }
}

/// Reading the text of a resolution gives the resolution back.
pub proof fn lemma_resolution_roundtrip(r: Resolution)
    ensures
        resolution_of_text(r.spec_to_string()) == Some(r),
{
    let t = r.spec_to_string();
    let a = dec(r.width as nat);
    let b = dec(r.height as nat);
    crate::text::lemma_dec(r.width as nat);
    crate::text::lemma_dec(r.height as nat);
    assert forall|j: int| 0 <= j < a.len() implies t[j] != 'x' by {
        assert(t[j] == a[j]);
        assert(crate::text::is_digit(a[j]));
    }
    assert(t[a.len() as int] == 'x');
    crate::text::lemma_find_char_at(t, 'x', a.len() as int);
    assert(t.take(a.len() as int) == a);
    assert(t.skip(a.len() as int + 1) == b);
    assert(crate::text::unsigned_digits(a) == a);
    assert(crate::text::unsigned_digits(b) == b);
}

} // verus!
