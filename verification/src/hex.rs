//! Decoding of hexadecimal text.
use vstd::prelude::*;
use vstd::string::StringSliceAdditionalSpecFns;

use crate::text::{dec, push_str, push_u64, string_of};
use crate::types::{hex_char, hex_digit};

verus! {

/// Why hexadecimal text could not be decoded.
#[derive(Debug, Clone, Copy, PartialEq, Eq, Structural)]
pub enum DecodeError {
    /// The byte at `index` is not a hexadecimal digit.
    InvalidChar { byte: u8, index: usize },
    /// The text has an odd number of bytes.
    OddLength,
    /// The text does not have twice as many bytes as the output.
    LengthMismatch { expected: usize, got: usize },
}

/// The value of the hexadecimal digit `b` (`0-9`, `a-f`, `A-F`).
pub open spec fn nibble(b: u8) -> Option<u8> {
    if 48 <= b <= 57 {
        Some((b - 48) as u8)
    } else if 97 <= b <= 102 {
        Some((b - 87) as u8)
    } else if 65 <= b <= 70 {
        Some((b - 55) as u8)
    } else {
        None
    }
}

/// The index of the first byte of `s` that is not a hexadecimal digit.
pub open spec fn first_invalid(s: Seq<u8>) -> Option<int>
    decreases s.len(),
{
    if s.len() == 0 {
        None
    } else if nibble(s[0]) is None {
        Some(0)
    } else {
        match first_invalid(s.drop_first()) {
            Some(i) => Some(i + 1),
            None => None,
        }
    }
}

/// The byte that the two digits at `2 * j` and `2 * j + 1` of `s` denote.
pub open spec fn byte_at(s: Seq<u8>, j: int) -> u8 {
    (nibble(s[2 * j]).unwrap() * 16 + nibble(s[2 * j + 1]).unwrap()) as u8
}

/// The bytes that the hexadecimal digits `s` denote, two digits each.
pub open spec fn decoded(s: Seq<u8>) -> Seq<u8> {
    Seq::new(s.len() / 2, |j: int| byte_at(s, j))
}

/// The outcome of decoding the hexadecimal text `s`.
pub open spec fn spec_decode(s: Seq<u8>) -> Result<Seq<u8>, DecodeError> {
    if s.len() % 2 != 0 {
        Err(DecodeError::OddLength)
    } else {
        match first_invalid(s) {
            Some(i) => Err(DecodeError::InvalidChar { byte: s[i], index: i as usize }),
            None => Ok(decoded(s)),
        }
    }
}

pub proof fn lemma_first_invalid(s: Seq<u8>)
    ensures
        first_invalid(s) matches Some(i) ==> 0 <= i < s.len() && nibble(s[i]) is None && forall|
            j: int,
        |
            0 <= j < i ==> nibble(s[j]) is Some,
        first_invalid(s) is None ==> forall|j: int| 0 <= j < s.len() ==> nibble(s[j]) is Some,
    decreases s.len(),
{
    if s.len() > 0 {
        lemma_first_invalid(s.drop_first());
        assert forall|j: int| 1 <= j < s.len() implies s[j] == s.drop_first()[j - 1] by {}
    }
}

proof fn lemma_first_invalid_at(s: Seq<u8>, i: int)
    requires
        0 <= i < s.len(),
        nibble(s[i]) is None,
        forall|j: int| 0 <= j < i ==> nibble(s[j]) is Some,
    ensures
        first_invalid(s) == Some(i),
{
    lemma_first_invalid(s);
    if let Some(k) = first_invalid(s) {
        if k < i {
            assert(nibble(s[k]) is Some);
        } else if k > i {
            assert(nibble(s[i]) is Some);
        }
    } else {
        assert(nibble(s[i]) is Some);
    }
}

/// The value of a hexadecimal digit.
fn from_nibble(byte: u8) -> (res: Option<u8>)
    ensures
        res == nibble(byte),
{
    if 48 <= byte && byte <= 57 {
        Some(byte - 48)
    } else if 97 <= byte && byte <= 102 {
        Some(byte - 87)
    } else if 65 <= byte && byte <= 70 {
        Some(byte - 55)
    } else {
        None
    }
}

/// Decodes the hexadecimal digits `bytes`, two digits per byte.
pub fn decode_bytes(bytes: &[u8]) -> (res: Result<Vec<u8>, DecodeError>)
    ensures
        match spec_decode(bytes@) {
            Ok(v) => res matches Ok(out) && out@ == v,
            Err(e) => res == Err::<Vec<u8>, DecodeError>(e),
        },
{
    let n = bytes.len();
    if n % 2 != 0 {
        return Err(DecodeError::OddLength);
    }
    let mut out: Vec<u8> = Vec::new();
    let mut i: usize = 0;
    while i < n / 2
        invariant
            n == bytes@.len(),
            n % 2 == 0,
            i <= n / 2,
            forall|k: int| 0 <= k < 2 * i ==> nibble(bytes@[k]) is Some,
            out@ == decoded(bytes@).take(i as int),
        decreases n / 2 - i,
    {
        let hi = match from_nibble(bytes[2 * i]) {
            Some(h) => h,
            None => {
                proof {
                    lemma_first_invalid_at(bytes@, 2 * i as int);
                }
                return Err(DecodeError::InvalidChar { byte: bytes[2 * i], index: 2 * i });
            },
        };
        let lo = match from_nibble(bytes[2 * i + 1]) {
            Some(l) => l,
            None => {
                proof {
                    lemma_first_invalid_at(bytes@, 2 * i + 1);
                }
                return Err(DecodeError::InvalidChar { byte: bytes[2 * i + 1], index: 2 * i + 1 });
            },
        };
        out.push(hi * 16 + lo);
        assert(decoded(bytes@).take(i + 1) =~= decoded(bytes@).take(i as int).push(
            byte_at(bytes@, i as int),
        ));
        i = i + 1;
    }
    proof {
        lemma_first_invalid(bytes@);
        if let Some(k) = first_invalid(bytes@) {
            assert(nibble(bytes@[k]) is Some);
        }
        assert(decoded(bytes@).take(i as int) == decoded(bytes@));
    }
    Ok(out)
}

/// Decodes the hexadecimal digits of `input`, two digits per byte.
pub fn decode(input: &str) -> (res: Result<Vec<u8>, DecodeError>)
    ensures
        match spec_decode(input.spec_bytes()) {
            Ok(v) => res matches Ok(out) && out@ == v,
            Err(e) => res == Err::<Vec<u8>, DecodeError>(e),
        },
{
    decode_bytes(input.as_bytes())
}

/// Decodes the hexadecimal digits `input` into `out`, which must be half as long as
/// `input`. When a byte is not a digit, the bytes decoded before it stay written.
pub fn decode_to_slice(input: &[u8], out: &mut [u8]) -> (res: Result<(), DecodeError>)
    requires
        old(out)@.len() * 2 <= usize::MAX,
    ensures
        final(out)@.len() == old(out)@.len(),
        input@.len() != old(out)@.len() * 2 ==> res == Err::<(), DecodeError>(
            DecodeError::LengthMismatch {
                expected: (old(out)@.len() * 2) as usize,
                got: input@.len() as usize,
            },
        ) && final(out)@ == old(out)@,
        input@.len() == old(out)@.len() * 2 ==> match first_invalid(input@) {
            None => res is Ok && final(out)@ == decoded(input@),
            Some(i) => res == Err::<(), DecodeError>(
                DecodeError::InvalidChar { byte: input@[i], index: i as usize },
            ) && final(out)@ == decoded(input@).take(i / 2) + old(out)@.skip(i / 2),
        },
{
    let len = out.len();
    if input.len() != len * 2 {
        return Err(DecodeError::LengthMismatch { expected: len * 2, got: input.len() });
    }
    let ghost start = out@;
    assert(decoded(input@).len() == len);
    let mut i: usize = 0;
    while i < len
        invariant
            len == out@.len(),
            len == start.len(),
            start == old(out)@,
            input@.len() == len * 2,
            len * 2 <= usize::MAX,
            decoded(input@).len() == len,
            i <= len,
            forall|k: int| 0 <= k < 2 * i ==> nibble(input@[k]) is Some,
            out@ == decoded(input@).take(i as int) + start.skip(i as int),
        decreases len - i,
    {
        let hi = match from_nibble(input[2 * i]) {
            Some(h) => h,
            None => {
                proof {
                    lemma_first_invalid_at(input@, 2 * i as int);
                    assert((2 * i as int) / 2 == i);
                }
                return Err(DecodeError::InvalidChar { byte: input[2 * i], index: 2 * i });
            },
        };
        let lo = match from_nibble(input[2 * i + 1]) {
            Some(l) => l,
            None => {
                proof {
                    lemma_first_invalid_at(input@, 2 * i + 1);
                    assert((2 * i + 1) / 2 == i as int);
                }
                return Err(DecodeError::InvalidChar { byte: input[2 * i + 1], index: 2 * i + 1 });
            },
        };
        out[i] = hi * 16 + lo;
        assert(out@ =~= decoded(input@).take(i + 1) + start.skip(i + 1));
        i = i + 1;
    }
    proof {
        lemma_first_invalid(input@);
        if let Some(k) = first_invalid(input@) {
            assert(nibble(input@[k]) is Some);
        }
        assert(out@ =~= decoded(input@));
    }
    Ok(())
}

/// The message of a decoding error.
pub open spec fn decode_error_text(e: DecodeError) -> Seq<char> {
    match e {
        DecodeError::InvalidChar { byte, index } => "invalid hex character 0x"@ + seq![
            hex_char((byte / 16) as nat),
            hex_char((byte % 16) as nat),
        ] + " at index "@ + dec(index as nat),
        DecodeError::OddLength => "odd hex string length"@,
        DecodeError::LengthMismatch { expected, got } => "expected "@ + dec(expected as nat)
            + " hex bytes, got "@ + dec(got as nat),
    }
}

impl DecodeError {
    /// The message of the error (see [`decode_error_text`]).
    pub fn to_string(&self) -> (res: String)
        ensures
            res@ == decode_error_text(*self),
    {
        let mut out: Vec<char> = Vec::new();
        match *self {
            DecodeError::InvalidChar { byte, index } => {
                push_str(&mut out, "invalid hex character 0x");
                out.push(hex_digit(byte / 16));
                out.push(hex_digit(byte % 16));
                push_str(&mut out, " at index ");
                push_u64(&mut out, index as u64);
            },
            DecodeError::OddLength => {
                push_str(&mut out, "odd hex string length");
            },
            DecodeError::LengthMismatch { expected, got } => {
                push_str(&mut out, "expected ");
                push_u64(&mut out, expected as u64);
                push_str(&mut out, " hex bytes, got ");
                push_u64(&mut out, got as u64);
            },
        }
        proof {
            match *self {
                DecodeError::InvalidChar { byte, index } => {
                    assert(out@ =~= decode_error_text(*self));
                },
                DecodeError::OddLength => {},
                DecodeError::LengthMismatch { expected, got } => {
                    assert(out@ =~= decode_error_text(*self));
                },
            }
        }
        string_of(&out)
    }
}

} // verus!
