use vstd::prelude::*;

use crate::error::Error;
use crate::hex::{decode_bytes, decoded, spec_decode};
use crate::text::{
    chars_of, decimal_text, push_quoted_string, quoted, slice_of, string_of, strip_quotes, unquote,
};
use crate::types::{all_ascii, ascii_bytes, float_of_text, Float};

verus! {

/// A value of a client attribute, taken by its parts.
pub enum ValueView {
    /// A quoted string.
    Text(Seq<char>),
    /// Hexadecimal bytes.
    Bytes(Seq<u8>),
    /// A decimal number: whether it is negative, its whole part and its fraction in
    /// units of `10^-9`.
    Number((bool, u64, u32)),
}

/// The value of a client attribute of `#EXT-X-DATERANGE`: a quoted string, a
/// hexadecimal sequence or a decimal number.
#[derive(Debug, Clone, PartialEq, Eq, PartialOrd, Ord, Hash)]
pub enum Value {
    /// A quoted string.
    String(String),
    /// A hexadecimal sequence (`0x...`).
    Hex(Vec<u8>),
    /// A decimal number.
    Float(Float),
}

impl View for Value {
    type V = ValueView;

    open spec fn view(&self) -> ValueView {
        match self {
            Value::String(s) => ValueView::Text(s@),
            Value::Hex(b) => ValueView::Bytes(b@),
            Value::Float(f) => ValueView::Number(f@),
        }
    }
}

/// The uppercase hexadecimal digit of `n` (below 16).
pub open spec fn hex_char_upper(n: nat) -> char {
    if n < 10 {
        (n + '0' as nat) as char
    } else {
        (n - 10 + 'A' as nat) as char
    }
}

/// The uppercase hexadecimal text of `b`, two digits per byte.
pub open spec fn hex_text_upper(b: Seq<u8>) -> Seq<char>
    decreases b.len(),
{
    if b.len() == 0 {
        seq![]
    } else {
        hex_text_upper(b.drop_last()) + seq![
            hex_char_upper(b.last() as nat / 16),
            hex_char_upper(b.last() as nat % 16),
        ]
    }
}

/// The text of a signed decimal number.
pub open spec fn float_text(p: (bool, u64, u32)) -> Seq<char> {
    if p.0 {
        seq!['-'] + decimal_text(p.1 as nat, p.2 as nat)
    } else {
        decimal_text(p.1 as nat, p.2 as nat)
    }
}

/// The text of a value.
pub open spec fn value_text(v: ValueView) -> Seq<char> {
    match v {
        ValueView::Text(s) => quoted(s),
        ValueView::Bytes(b) => seq!['0', 'x'] + hex_text_upper(b),
        ValueView::Number(p) => float_text(p),
    }
}

/// The text `s` starts with `0x` or `0X`.
pub open spec fn has_hex_prefix(s: Seq<char>) -> bool {
    s.len() >= 2 && s[0] == '0' && (s[1] == 'x' || s[1] == 'X')
}

/// The value that the text `s` denotes: hexadecimal bytes after `0x` or `0X`, else a
/// decimal number if it reads as one, else a string (without its double quotes).
pub open spec fn value_of_text(s: Seq<char>) -> Option<ValueView> {
    if has_hex_prefix(s) {
        let body = s.skip(2);
        if all_ascii(body) && spec_decode(ascii_bytes(body)) is Ok {
            Some(ValueView::Bytes(decoded(ascii_bytes(body))))
        } else {
            None
        }
    } else {
        match float_of_text(s) {
            Some(p) => Some(ValueView::Number(p)),
            None => Some(ValueView::Text(strip_quotes(s))),
        }
    }
}

/// The uppercase hexadecimal digit of `n`.
fn hex_digit_upper(n: u8) -> (res: char)
    requires
        n < 16,
    ensures
        res == hex_char_upper(n as nat),
{
    if n < 10 {
        (48u8 + n) as char
    } else {
        (55u8 + n) as char
    }
}

impl Value {
    /// The text of the value.
    pub open spec fn spec_to_string(self) -> Seq<char> {
        value_text(self@)
    }

    /// Appends the text of the value to `out`.
    pub fn write(&self, out: &mut Vec<char>)
        ensures
            final(out)@ == old(out)@ + self.spec_to_string(),
    {
        match self {
            Value::String(s) => push_quoted_string(out, s),
            Value::Hex(b) => {
                let ghost start = out@;
                out.push('0');
                out.push('x');
                let mut i: usize = 0;
                while i < b.len()
                    invariant
                        i <= b@.len(),
                        out@ == start + seq!['0', 'x'] + hex_text_upper(b@.take(i as int)),
                    decreases b@.len() - i,
                {
                    let x = b[i];
                    assert(b@.take(i + 1).drop_last() == b@.take(i as int));
                    assert(b@.take(i + 1).last() == x);
                    out.push(hex_digit_upper(x / 16));
                    out.push(hex_digit_upper(x % 16));
                    assert(out@ =~= start + seq!['0', 'x'] + hex_text_upper(b@.take(i + 1)));
                    i = i + 1;
                }
                assert(b@.take(b@.len() as int) == b@);
            },
            Value::Float(f) => f.write(out),
        }
    }

    /// The text of the value.
    pub fn to_string(&self) -> (res: String)
        ensures
            res@ == self.spec_to_string(),
    {
        let mut out = Vec::new();
        self.write(&mut out);
        string_of(&out)
    }

    /// Reads a value from its text.
    pub fn parse_chars(v: &Vec<char>) -> (res: Result<Value, Error>)
        ensures
            res is Ok <==> value_of_text(v@) is Some,
            res matches Ok(x) ==> value_of_text(v@) == Some(x@),
    {
        if v.len() >= 2 && v[0] == '0' && (v[1] == 'x' || v[1] == 'X') {
            let ghost body = v@.skip(2);
            let mut bytes: Vec<u8> = Vec::new();
            let mut i: usize = 2;
            while i < v.len()
                invariant
                    2 <= i <= v@.len(),
                    has_hex_prefix(v@),
                    body == v@.skip(2),
                    bytes@.len() == i - 2,
                    forall|k: int| 0 <= k < i - 2 ==> (#[trigger] body[k]) < '\u{80}',
                    forall|k: int| 0 <= k < i - 2 ==> bytes@[k] == body[k] as u8,
                decreases v@.len() - i,
            {
                let c = v[i];
                assert(body[i - 2] == c);
                if c >= '\u{80}' {
                    assert(!all_ascii(body));
                    return Err(Error::InvalidHex(String::from_str("not a hexadecimal digit")));
                }
                bytes.push(c as u8);
                i = i + 1;
            }
            assert(bytes@ =~= ascii_bytes(body));
            match decode_bytes(bytes.as_slice()) {
                Ok(out) => Ok(Value::Hex(out)),
                Err(_) => Err(Error::InvalidHex(String::from_str("not hexadecimal bytes"))),
            }
        } else {
            match Float::parse_chars(v) {
                Ok(f) => Ok(Value::Float(f)),
                Err(_) => Ok(Value::String(string_of(&unquote(v)))),
            }
        }
    }

    /// Reads a value from its text.
    pub fn try_from(input: &str) -> (res: Result<Value, Error>)
        ensures
            res is Ok <==> value_of_text(input@) is Some,
            res matches Ok(x) ==> value_of_text(input@) == Some(x@),
    {
        Self::parse_chars(&chars_of(input))
    }
}

} // verus!
