//! The error type of this crate.
use vstd::prelude::*;

use crate::text::{chars_of, push_str, push_string, string_of};
use crate::types::{hex_char, hex_digit};

verus! {

/// What went wrong while parsing or building a playlist or a tag.
#[derive(Debug, Clone, PartialEq, Eq)]
pub enum Error {
    /// A value is missing for the named attribute.
    MissingValue { value: String },
    /// The input is not valid.
    InvalidInput,
    /// The input is not a valid integer.
    ParseIntError { input: String },
    /// The input is not a valid decimal number.
    ParseFloatError { input: String },
    /// The input does not start with the expected tag.
    MissingTag { tag: String, input: String },
    /// Any other error, described by a message.
    Custom(String),
    /// A group id does not match any `EXT-X-MEDIA` tag.
    UnmatchedGroup(String),
    /// The protocol version is unknown.
    UnknownProtocolVersion(String),
    /// A required attribute is missing.
    MissingAttribute { attribute: String },
    /// An attribute is present that is not allowed.
    UnexpectedAttribute { attribute: String },
    /// A tag is present that is not allowed in this playlist.
    UnexpectedTag { tag: String },
    /// The input is not valid hexadecimal.
    InvalidHex(String),
}

/// The result type of this crate.
pub type Result<T> = core::result::Result<T, Error>;

/// The lowercase hexadecimal digits of `n` (below 256) without leading zeros.
pub open spec fn short_hex(n: nat) -> Seq<char> {
    if n < 16 {
        seq![hex_char(n)]
    } else {
        seq![hex_char(n / 16), hex_char(n % 16)]
    }
}

/// How the character `c` is written inside a quoted text of a message: a quote, a
/// backslash, a line feed, a carriage return, a tab and a nul with a backslash before
/// them (`\"`, `\\`, `\n`, `\r`, `\t`, `\0`), the other ASCII control characters as
/// `\u{..}` with their code in hexadecimal, any other character as it is.
pub open spec fn escaped_char(c: char) -> Seq<char> {
    if c == '"' {
        seq!['\\', '"']
    } else if c == '\\' {
        seq!['\\', '\\']
    } else if c == '\n' {
        seq!['\\', 'n']
    } else if c == '\r' {
        seq!['\\', 'r']
    } else if c == '\t' {
        seq!['\\', 't']
    } else if c == '\0' {
        seq!['\\', '0']
    } else if (c as nat) < 0x20 || (c as nat) == 0x7f {
        seq!['\\', 'u', '{'] + short_hex(c as nat) + seq!['}']
    } else {
        seq![c]
    }
}

/// The characters of `s`, each escaped (see [`escaped_char`]).
pub open spec fn escaped(s: Seq<char>) -> Seq<char>
    decreases s.len(),
{
    if s.len() == 0 {
        seq![]
    } else {
        escaped(s.drop_last()) + escaped_char(s.last())
    }
}

/// The text `s` between double quotes, escaped (see [`escaped_char`]).
pub open spec fn debug_quoted(s: Seq<char>) -> Seq<char> {
    seq!['"'] + escaped(s) + seq!['"']
}

/// The message of an error.
pub open spec fn error_text(e: Error) -> Seq<char> {
    match e {
        Error::MissingValue { value } => "a value is missing for the attribute "@ + value@,
        Error::InvalidInput => "invalid input"@,
        Error::ParseIntError { input } => "invalid integer: "@ + debug_quoted(input@),
        Error::ParseFloatError { input } => "invalid float literal: "@ + debug_quoted(input@),
        Error::MissingTag { tag, input } => "expected `"@ + tag@ + "` at the start of "@ + debug_quoted(
            input@,
        ),
        Error::Custom(m) => m@,
        Error::UnmatchedGroup(g) => "unmatched group: "@ + debug_quoted(g@),
        Error::UnknownProtocolVersion(v) => "unknown protocol version "@ + debug_quoted(v@),
        Error::MissingAttribute { attribute } => "missing attribute: "@ + debug_quoted(attribute@),
        Error::UnexpectedAttribute { attribute } => "unexpected attribute: "@ + debug_quoted(attribute@),
        Error::UnexpectedTag { tag } => "unexpected tag: "@ + debug_quoted(tag@),
        Error::InvalidHex(r) => "invalid hex: "@ + r@,
    }
}

/// Appends the escaped character `c` (see [`escaped_char`]) to `out`.
fn push_escaped_char(out: &mut Vec<char>, c: char)
    ensures
        final(out)@ == old(out)@ + escaped_char(c),
{
    let ghost o0 = out@;
    if c == '"' {
        out.push('\\');
        out.push('"');
    } else if c == '\\' {
        out.push('\\');
        out.push('\\');
    } else if c == '\n' {
        out.push('\\');
        out.push('n');
    } else if c == '\r' {
        out.push('\\');
        out.push('r');
    } else if c == '\t' {
        out.push('\\');
        out.push('t');
    } else if c == '\0' {
        out.push('\\');
        out.push('0');
    } else if c < ' ' || c == '\x7f' {
        let n: u32 = c as u32;
        out.push('\\');
        out.push('u');
        out.push('{');
        if n >= 16 {
            out.push(hex_digit((n / 16) as u8));
        }
        out.push(hex_digit((n % 16) as u8));
        out.push('}');
    } else {
        out.push(c);
    }
    assert(out@ =~= o0 + escaped_char(c));
}

/// Appends the characters `v` between double quotes, escaped (see [`debug_quoted`]),
/// to `out`.
pub(crate) fn push_debug_quoted_chars(out: &mut Vec<char>, v: &Vec<char>)
    ensures
        final(out)@ == old(out)@ + debug_quoted(v@),
{
    let ghost o0 = out@;
    out.push('"');
    let mut i: usize = 0;
    while i < v.len()
        invariant
            i <= v@.len(),
            out@ == o0 + seq!['"'] + escaped(v@.take(i as int)),
        decreases v@.len() - i,
    {
        assert(v@.take(i + 1).drop_last() == v@.take(i as int));
        push_escaped_char(out, v[i]);
        i = i + 1;
    }
    assert(v@.take(v@.len() as int) == v@);
    out.push('"');
    assert(out@ =~= o0 + debug_quoted(v@));
}

/// Appends `s` between double quotes, escaped (see [`debug_quoted`]), to `out`.
pub(crate) fn push_debug_quoted(out: &mut Vec<char>, s: &String)
    ensures
        final(out)@ == old(out)@ + debug_quoted(s@),
{
    push_debug_quoted_chars(out, &chars_of(s.as_str()));
}

impl Error {
    /// The message of the error (see [`error_text`]).
    pub fn to_string(&self) -> (res: String)
        ensures
            res@ == error_text(*self),
    {
        let mut out: Vec<char> = Vec::new();
        match self {
            Error::MissingValue { value } => {
                push_str(&mut out, "a value is missing for the attribute ");
                push_string(&mut out, value);
            },
            Error::InvalidInput => {
                push_str(&mut out, "invalid input");
            },
            Error::ParseIntError { input } => {
                push_str(&mut out, "invalid integer: ");
                push_debug_quoted(&mut out, input);
            },
            Error::ParseFloatError { input } => {
                push_str(&mut out, "invalid float literal: ");
                push_debug_quoted(&mut out, input);
            },
            Error::MissingTag { tag, input } => {
                push_str(&mut out, "expected `");
                push_string(&mut out, tag);
                push_str(&mut out, "` at the start of ");
                push_debug_quoted(&mut out, input);
            },
            Error::Custom(m) => {
                push_string(&mut out, m);
            },
            Error::UnmatchedGroup(g) => {
                push_str(&mut out, "unmatched group: ");
                push_debug_quoted(&mut out, g);
            },
            Error::UnknownProtocolVersion(v) => {
                push_str(&mut out, "unknown protocol version ");
                push_debug_quoted(&mut out, v);
            },
            Error::MissingAttribute { attribute } => {
                push_str(&mut out, "missing attribute: ");
                push_debug_quoted(&mut out, attribute);
            },
            Error::UnexpectedAttribute { attribute } => {
                push_str(&mut out, "unexpected attribute: ");
                push_debug_quoted(&mut out, attribute);
            },
            Error::UnexpectedTag { tag } => {
                push_str(&mut out, "unexpected tag: ");
                push_debug_quoted(&mut out, tag);
            },
            Error::InvalidHex(r) => {
                push_str(&mut out, "invalid hex: ");
                push_string(&mut out, r);
            },
        }
        string_of(&out)
    }
}

} // verus!
