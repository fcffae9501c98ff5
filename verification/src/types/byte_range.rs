use vstd::prelude::*;

use crate::attribute::AttrValue;
use crate::error::Error;
use crate::text::{
    chars_of, dec, expect_unsigned, find_char, parse_unsigned, position, push_u64, slice_of,
    string_of,
};

verus! {

/// A range of bytes: `start..end`, where a missing start means "right after the
/// previous range" (or `0` if there is none).
#[derive(Debug, Clone, Copy, PartialEq, Eq, Structural, PartialOrd, Ord, Hash)]
pub struct ByteRange {
    start: Option<usize>,
    end: usize,
}

impl View for ByteRange {
    type V = (Option<usize>, usize);

    /// The start (if given) and the end of the range.
    closed spec fn view(&self) -> (Option<usize>, usize) {
        (self.start, self.end)
    }
}

/// A start that is given never lies after the end.
pub open spec fn range_ok(start: Option<usize>, end: usize) -> bool {
    match start {
        Some(s) => s <= end,
        None => true,
    }
}

/// The length of `start..end`.
pub open spec fn range_len(start: Option<usize>, end: usize) -> nat {
    match start {
        Some(s) => (end - s) as nat,
        None => end as nat,
    }
}

/// The text of a byte range: its length, then `@` and its start if it has one.
pub open spec fn range_text(start: Option<usize>, end: usize) -> Seq<char> {
    match start {
        Some(s) => dec(range_len(start, end)) + seq!['@'] + dec(s as nat),
        None => dec(range_len(start, end)),
    }
}

/// The byte range that the text `s` (`<length>[@<start>]`) denotes.
pub open spec fn range_of_text(s: Seq<char>) -> Option<(Option<usize>, usize)> {
    match find_char(s, '@') {
        None => match parse_unsigned(s, usize::MAX as nat) {
            Some(n) => Some((None, n as usize)),
            None => None,
        },
        Some(k) => match (parse_unsigned(s.take(k), usize::MAX as nat), parse_unsigned(
            s.skip(k + 1),
            usize::MAX as nat,
        )) {
            (Some(n), Some(st)) => if st + n <= usize::MAX {
                Some((Some(st as usize), (st + n) as usize))
            } else {
                None
            },
            _ => None,
        },
    }
}

impl ByteRange {
    #[verifier::type_invariant]
    spec fn inv(self) -> bool {
        range_ok(self.start, self.end)
    }

    /// The range from `start` (if given) to `end`, as a value of the logic.
    pub closed spec fn spec_from(start: Option<usize>, end: usize) -> ByteRange {
        ByteRange { start, end }
    }

    /// `spec_from` gives a range with the parts it was given.
    pub proof fn lemma_spec_from(start: Option<usize>, end: usize)
        ensures
            ByteRange::spec_from(start, end)@ == (start, end),
    {
    }

    /// The range `start..end`.
    pub fn from_range(start: usize, end: usize) -> (res: ByteRange)
        requires
            start <= end,
        ensures
            res@ == (Some(start), end),
    {
        ByteRange { start: Some(start), end }
    }

    /// The range `..end`: it starts where the previous range ended.
    pub fn up_to(end: usize) -> (res: ByteRange)
        ensures
            res@ == (None::<usize>, end),
    {
        ByteRange { start: None, end }
    }

    /// The range with the given parts, if the start does not lie after the end.
    pub fn from_parts(start: Option<usize>, end: usize) -> (res: Option<ByteRange>)
        ensures
            range_ok(start, end) <==> res is Some,
            res matches Some(r) ==> r@ == (start, end),
    {
        match start {
            Some(s) => if s <= end {
                Some(ByteRange { start, end })
            } else {
                None
            },
            None => Some(ByteRange { start, end }),
        }
    }

    /// The first byte of the range, if given.
    pub fn start(&self) -> (res: Option<usize>)
        ensures
            res == self@.0,
    {
        self.start
    }

    /// The end of the range (exclusive).
    pub fn end(&self) -> (res: usize)
        ensures
            res == self@.1,
    {
        self.end
    }

    /// Sets the start of the range.
    pub fn set_start(&mut self, new_start: Option<usize>)
        requires
            range_ok(new_start, old(self)@.1),
        ensures
            final(self)@ == (new_start, old(self)@.1),
    {
        self.start = new_start;
    }

    /// Sets the end of the range.
    pub fn set_end(&mut self, new_end: usize)
        requires
            range_ok(old(self)@.0, new_end),
        ensures
            final(self)@ == (old(self)@.0, new_end),
    {
        self.end = new_end;
    }

    /// The number of bytes in the range.
    pub fn len(&self) -> (res: usize)
        ensures
            res == range_len(self@.0, self@.1),
    {
        proof {
            use_type_invariant(self);
        }
        match self.start {
            Some(s) => self.end - s,
            None => self.end,
        }
    }

    /// Whether the range holds no byte.
    pub fn is_empty(&self) -> (res: bool)
        ensures
            res == (range_len(self@.0, self@.1) == 0),
    {
        self.len() == 0
    }

    /// Moves the range `num` bytes forward. A range with a start that would overflow
    /// stays as it is; a range without a start has its end saturate.
    pub fn saturating_add(self, num: usize) -> (res: ByteRange)
        ensures
            match self@.0 {
                Some(s) => if self@.1 + num <= usize::MAX {
                    res@ == (Some((s + num) as usize), (self@.1 + num) as usize)
                } else {
                    res == self
                },
                None => res@ == (None::<usize>, if self@.1 + num <= usize::MAX {
                    (self@.1 + num) as usize
                } else {
                    usize::MAX
                }),
            },
    {
        proof {
            use_type_invariant(self);
        }
        match self.start {
            Some(s) => {
                if self.end <= usize::MAX - num {
                    ByteRange { start: Some(s + num), end: self.end + num }
                } else {
                    self
                }
            },
            None => ByteRange { start: None, end: self.end.saturating_add(num) },
        }
    }

    /// Moves the range `num` bytes back. A range with a start that would underflow
    /// stays as it is; a range without a start has its end saturate at `0`.
    pub fn saturating_sub(self, num: usize) -> (res: ByteRange)
        ensures
            match self@.0 {
                Some(s) => if s >= num {
                    res@ == (Some((s - num) as usize), (self@.1 - num) as usize)
                } else {
                    res == self
                },
                None => res@ == (None::<usize>, if self@.1 >= num {
                    (self@.1 - num) as usize
                } else {
                    0usize
                }),
            },
    {
        proof {
            use_type_invariant(self);
        }
        match self.start {
            Some(s) => {
                if s >= num {
                    ByteRange { start: Some(s - num), end: self.end - num }
                } else {
                    self
                }
            },
            None => ByteRange { start: None, end: self.end.saturating_sub(num) },
        }
    }

    /// The text of the range.
    pub open spec fn spec_to_string(self) -> Seq<char> {
        range_text(self@.0, self@.1)
    }

    /// Appends the text of the range to `out`.
    pub fn write(&self, out: &mut Vec<char>)
        ensures
            final(out)@ == old(out)@ + self.spec_to_string(),
    {
        let n = self.len();
        push_u64(out, n as u64);
        match self.start {
            Some(s) => {
                out.push('@');
                push_u64(out, s as u64);
            },
            None => {},
        }
    }

    /// The text of the range (`<length>[@<start>]`).
    pub fn to_string(&self) -> (res: String)
        ensures
            res@ == self.spec_to_string(),
    {
        let mut out = Vec::new();
        self.write(&mut out);
        string_of(&out)
    }

    /// Reads a byte range from its text.
    pub fn parse_chars(v: &Vec<char>) -> (res: Result<ByteRange, Error>)
        ensures
            res is Ok <==> range_of_text(v@) is Some,
            res matches Ok(r) ==> range_of_text(v@) == Some(r@),
    {
        match position(v, 0, v.len(), '@') {
            None => {
                assert(v@.subrange(0, v.len() as int) == v@);
                let n = expect_unsigned(v, usize::MAX as u64)?;
                Ok(ByteRange { start: None, end: n as usize })
            },
            Some(k) => {
                assert(v@.subrange(0, v.len() as int) == v@);
                proof {
                    crate::text::lemma_find_char(v@, '@');
                }
                let left = slice_of(v, 0, k);
                let right = slice_of(v, k + 1, v.len());
                assert(left@ == v@.take(k as int));
                assert(right@ == v@.skip(k + 1));
                let n = expect_unsigned(&left, usize::MAX as u64)?;
                let st = expect_unsigned(&right, usize::MAX as u64)?;
                if n > usize::MAX as u64 - st {
                    return Err(Error::InvalidInput);
                }
                Ok(ByteRange { start: Some(st as usize), end: (st + n) as usize })
            },
        }
    }

    /// Reads a byte range from its text (`<length>[@<start>]`).
    pub fn try_from(input: &str) -> (res: Result<ByteRange, Error>)
        ensures
            res is Ok <==> range_of_text(input@) is Some,
            res matches Ok(r) ==> range_of_text(input@) == Some(r@),
    {
        Self::parse_chars(&chars_of(input))
    }
}

impl AttrValue for ByteRange {
    open spec fn spec_value(s: Seq<char>) -> Option<ByteRange> {
        match range_of_text(s) {
            Some(p) => Some(choose|r: ByteRange| r@ == p),
            None => None,
        }
    }

    fn parse_value(v: &Vec<char>) -> (res: Result<ByteRange, Error>) {
        let r = ByteRange::parse_chars(v);
        match r {
            Ok(x) => {
                proof {
                    let p = range_of_text(v@).unwrap();
                    let c = choose|r: ByteRange| r@ == p;
                    assert(c@ == p);
                    lemma_view_injective(c, x);
                }
                Ok(x)
            },
            Err(e) => Err(e),
        }
    }
}

/// Two byte ranges with the same parts are equal.
pub proof fn lemma_view_injective(a: ByteRange, b: ByteRange)
    requires
        a@ == b@,
    ensures
        a == b,
{
}

/// Reading the text of a byte range gives the range back.
pub proof fn lemma_byte_range_roundtrip(r: ByteRange)
    requires
        range_ok(r@.0, r@.1),
    ensures
        range_of_text(r.spec_to_string()) == Some(r@),
{
    let (start, end) = r@;
    let n = range_len(start, end);
    crate::text::lemma_dec(n);
    let d = dec(n);
    assert forall|j: int| 0 <= j < d.len() implies d[j] != '@' by {
        assert(crate::text::is_digit(d[j]));
    }
    assert(crate::text::unsigned_digits(d) == d);
    match start {
        None => {
            crate::text::lemma_find_char(d, '@');
            if let Some(k) = find_char(d, '@') {
                assert(d[k] != '@');
            }
        },
        Some(s) => {
            let t = r.spec_to_string();
            crate::text::lemma_dec(s as nat);
            let e = dec(s as nat);
            assert forall|j: int| 0 <= j < d.len() implies t[j] != '@' by {
                assert(t[j] == d[j]);
            }
            assert(t[d.len() as int] == '@');
            crate::text::lemma_find_char_at(t, '@', d.len() as int);
            assert(t.take(d.len() as int) == d);
            assert(t.skip(d.len() as int + 1) == e);
            assert(e[0] != '+');
            assert(crate::text::unsigned_digits(e) == e);
        },
    }
}

} // verus!
