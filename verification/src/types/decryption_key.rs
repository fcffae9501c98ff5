use vstd::prelude::*;

use crate::attribute::{
    attr_list, attr_ok, attr_pairs, attr_val, char_views, lemma_attr_list_push,
    lemma_attr_roundtrip, lemma_plain_key, lemma_plain_value, lemma_quoted_wf_value,
    lemma_attr_list_no_lf, lemma_pairs_no_lf_push, lemma_values_for_push, lemma_wf_pairs_push,
    pair_views, pairs_of, parse_attr, values_for,
    values_of, wf_pairs, AttrValue,
};
use crate::error::Error;
use crate::hex::{byte_at, decode_to_slice, decoded, first_invalid, lemma_first_invalid, nibble};
use crate::text::{
    chars_of, dec, equals_str, expect_unsigned, find_char, is_digit, is_ws, lemma_dec,
    lemma_find_char, lemma_find_char_at, lemma_strip_quoted, lemma_strip_quotes_concat,
    lemma_quoted_no_lf, lemma_strip_quotes_id, lemma_trim_id, no_lf,
    parse_unsigned, push_quoted_string, push_str, push_u64, quoted, split_chars, split_on,
    string_of, strip_quotes, trim, trimmed, unquote,
};
use crate::types::{lemma_encryption_method_roundtrip, EncryptionMethod, ProtocolVersion};

verus! {

/// How the key is represented (`KEYFORMAT`, RFC 8216 section 4.3.2.4).
#[derive(Debug, Clone, Copy, PartialEq, Eq, Structural, PartialOrd, Ord, Hash)]
pub enum KeyFormat {
    /// The key is a single packed array of 16 octets in binary format.
    Identity,
}

/// The key format that the text `s` names, once its double quotes are removed.
pub open spec fn key_format_of_text(s: Seq<char>) -> Option<KeyFormat> {
    if strip_quotes(s) == "identity"@ {
        Some(KeyFormat::Identity)
    } else {
        None
    }
}

impl KeyFormat {
    /// The text of the key format, between double quotes.
    pub open spec fn spec_to_string(self) -> Seq<char> {
        quoted("identity"@)
    }

    /// Appends the text of the key format to `out`.
    pub fn write(&self, out: &mut Vec<char>)
        ensures
            final(out)@ == old(out)@ + self.spec_to_string(),
    {
        let s = String::from_str("identity");
        push_quoted_string(out, &s);
    }

    /// The text of the key format.
    pub fn to_string(&self) -> (res: String)
        ensures
            res@ == self.spec_to_string(),
    {
        let mut out = Vec::new();
        self.write(&mut out);
        string_of(&out)
    }

    /// Reads a key format from its text.
    pub fn parse_chars(v: &Vec<char>) -> (res: Result<KeyFormat, Error>)
        ensures
            res is Ok <==> key_format_of_text(v@) is Some,
            res matches Ok(x) ==> key_format_of_text(v@) == Some(x),
    {
        if equals_str(&unquote(v), "identity") {
            Ok(KeyFormat::Identity)
        } else {
            Err(Error::InvalidInput)
        }
    }

    /// Reads a key format from its text.
    pub fn try_from(input: &str) -> (res: Result<KeyFormat, Error>)
        ensures
            res is Ok <==> key_format_of_text(input@) is Some,
            res matches Ok(x) ==> key_format_of_text(input@) == Some(x),
    {
        Self::parse_chars(&chars_of(input))
    }
}

impl AttrValue for KeyFormat {
    open spec fn spec_value(s: Seq<char>) -> Option<KeyFormat> {
        key_format_of_text(s)
    }

    fn parse_value(v: &Vec<char>) -> (res: Result<KeyFormat, Error>) {
        Self::parse_chars(v)
    }
}

/// The versions of the key format that a key complies with (`KEYFORMATVERSIONS`).
#[derive(Debug, Clone, PartialEq, Eq, PartialOrd, Ord, Hash)]
pub struct KeyFormatVersions {
    versions: Vec<u16>,
}

impl View for KeyFormatVersions {
    type V = Seq<u16>;

    /// The versions, in order.
    closed spec fn view(&self) -> Seq<u16> {
        self.versions@
    }
}

/// The versions joined by `/`.
pub open spec fn join_versions(s: Seq<u16>) -> Seq<char>
    decreases s.len(),
{
    if s.len() == 0 {
        seq![]
    } else if s.len() == 1 {
        dec(s[0] as nat)
    } else {
        join_versions(s.drop_last()) + seq!['/'] + dec(s.last() as nat)
    }
}

/// The versions that the text `s` lists: its pieces between `/`, once double quotes
/// are removed, each trimmed and read as a number no larger than `65535`.
pub open spec fn versions_of_text(s: Seq<char>) -> Option<Seq<u16>> {
    let pieces = split_on(strip_quotes(s), '/');
    if forall|i: int|
        0 <= i < pieces.len() ==> (#[trigger] parse_unsigned(trim(pieces[i]), 65535)) is Some {
        Some(Seq::new(pieces.len(), |i: int| parse_unsigned(trim(pieces[i]), 65535).unwrap() as u16))
    } else {
        None
    }
}

impl KeyFormatVersions {
    /// The versions `[1]`.
    pub fn new() -> (res: KeyFormatVersions)
        ensures
            res@ == seq![1u16],
    {
        let mut v: Vec<u16> = Vec::new();
        v.push(1);
        KeyFormatVersions { versions: v }
    }

    /// The given versions; an empty list stands for the versions `[1]`.
    pub fn from_vec(versions: Vec<u16>) -> (res: KeyFormatVersions)
        ensures
            versions@.len() > 0 ==> res@ == versions@,
            versions@.len() == 0 ==> res@ == seq![1u16],
    {
        if versions.len() == 0 {
            Self::new()
        } else {
            KeyFormatVersions { versions }
        }
    }

    /// A copy of the versions.
    pub fn copy(&self) -> (res: KeyFormatVersions)
        ensures
            res@ == self@,
    {
        let mut v: Vec<u16> = Vec::new();
        let mut i: usize = 0;
        while i < self.versions.len()
            invariant
                i <= self.versions@.len(),
                v@ == self.versions@.take(i as int),
            decreases self.versions@.len() - i,
        {
            v.push(self.versions[i]);
            assert(self.versions@.take(i + 1) == self.versions@.take(i as int).push(
                self.versions@[i as int],
            ));
            i = i + 1;
        }
        assert(self.versions@.take(i as int) == self.versions@);
        KeyFormatVersions { versions: v }
    }

    /// Whether two lists of versions are the same.
    pub fn same_as(&self, other: &KeyFormatVersions) -> (res: bool)
        ensures
            res == (self@ == other@),
    {
        if self.versions.len() != other.versions.len() {
            return false;
        }
        let mut i: usize = 0;
        while i < self.versions.len()
            invariant
                i <= self.versions@.len(),
                self.versions@.len() == other.versions@.len(),
                forall|j: int| 0 <= j < i ==> self.versions@[j] == other.versions@[j],
            decreases self.versions@.len() - i,
        {
            if self.versions[i] != other.versions[i] {
                return false;
            }
            i = i + 1;
        }
        assert(self.versions@ =~= other.versions@);
        true
    }

    /// The versions, in order.
    pub fn as_slice(&self) -> (res: &[u16])
        ensures
            res@ == self@,
    {
        self.versions.as_slice()
    }

    /// Appends a version.
    pub fn push(&mut self, value: u16)
        ensures
            final(self)@ == old(self)@.push(value),
    {
        self.versions.push(value);
    }

    /// The number of versions.
    pub fn len(&self) -> (res: usize)
        ensures
            res == self@.len(),
    {
        self.versions.len()
    }

    /// Whether there is no version.
    pub fn is_empty(&self) -> (res: bool)
        ensures
            res == (self@.len() == 0),
    {
        self.versions.len() == 0
    }

    /// Whether the versions are the default ones, `[1]`.
    pub fn is_default(&self) -> (res: bool)
        ensures
            res == (self@ == seq![1u16]),
    {
        if self.versions.len() == 1 && self.versions[0] == 1 {
            assert(self@ =~= seq![1u16]);
            true
        } else {
            false
        }
    }

    /// The text of the versions: joined by `/`, between double quotes.
    pub open spec fn spec_to_string(self) -> Seq<char> {
        seq!['"'] + join_versions(self@) + seq!['"']
    }

    /// Appends the text of the versions to `out`.
    pub fn write(&self, out: &mut Vec<char>)
        ensures
            final(out)@ == old(out)@ + self.spec_to_string(),
    {
        let ghost start = out@;
        out.push('"');
        let mut i: usize = 0;
        while i < self.versions.len()
            invariant
                i <= self.versions@.len(),
                out@ == start + seq!['"'] + join_versions(self.versions@.take(i as int)),
            decreases self.versions@.len() - i,
        {
            let ghost prev = self.versions@.take(i as int);
            assert(self.versions@.take(i + 1).drop_last() == prev);
            assert(self.versions@.take(i + 1).last() == self.versions@[i as int]);
            if i > 0 {
                out.push('/');
            }
            push_u64(out, self.versions[i] as u64);
            proof {
                if i == 0 {
                    assert(prev.len() == 0);
                    assert(join_versions(prev) == Seq::<char>::empty());
                }
            }
            assert(out@ =~= start + seq!['"'] + join_versions(self.versions@.take(i + 1)));
            i = i + 1;
        }
        assert(self.versions@.take(i as int) == self.versions@);
        out.push('"');
    }

    /// The text of the versions.
    pub fn to_string(&self) -> (res: String)
        ensures
            res@ == self.spec_to_string(),
    {
        let mut out = Vec::new();
        self.write(&mut out);
        string_of(&out)
    }

    /// Reads versions from their text.
    pub fn parse_chars(v: &Vec<char>) -> (res: Result<KeyFormatVersions, Error>)
        ensures
            res is Ok <==> versions_of_text(v@) is Some,
            res matches Ok(x) ==> versions_of_text(v@) == Some(x@),
    {
        let u = unquote(v);
        let pieces = split_chars(&u, '/');
        let ghost ps = split_on(strip_quotes(v@), '/');
        let mut out: Vec<u16> = Vec::new();
        let mut i: usize = 0;
        while i < pieces.len()
            invariant
                i <= pieces@.len(),
                ps == split_on(strip_quotes(v@), '/'),
                pieces@.len() == ps.len(),
                forall|k: int| 0 <= k < pieces@.len() ==> (#[trigger] pieces@[k])@ == ps[k],
                out@.len() == i,
                forall|k: int|
                    0 <= k < i ==> (#[trigger] parse_unsigned(trim(ps[k]), 65535)) is Some
                        && out@[k] == parse_unsigned(trim(ps[k]), 65535).unwrap() as u16,
            decreases pieces@.len() - i,
        {
            assert(pieces@[i as int]@ == ps[i as int]);
            let t = trimmed(&pieces[i], 0, pieces[i].len());
            assert(pieces@[i as int]@.subrange(0, pieces@[i as int]@.len() as int) == ps[i as int]);
            let n = match expect_unsigned(&t, 65535) {
                Ok(n) => n,
                Err(e) => {
                    assert(parse_unsigned(trim(ps[i as int]), 65535) is None);
                    return Err(e);
                },
            };
            out.push(n as u16);
            i = i + 1;
        }
        assert(out@ =~= Seq::new(ps.len(), |k: int| parse_unsigned(trim(ps[k]), 65535).unwrap() as u16));
        Ok(KeyFormatVersions { versions: out })
    }

    /// Reads versions from their text (`"1/2/3"`).
    pub fn try_from(input: &str) -> (res: Result<KeyFormatVersions, Error>)
        ensures
            res is Ok <==> versions_of_text(input@) is Some,
            res matches Ok(x) ==> versions_of_text(input@) == Some(x@),
    {
        Self::parse_chars(&chars_of(input))
    }
}

/// The versions `[1]` are the default ones.
impl Default for KeyFormatVersions {
    fn default() -> (res: KeyFormatVersions)
        ensures
            res@ == seq![1u16],
    {
        KeyFormatVersions::new()
    }
}

/// The initialization vector of a key (`IV`, RFC 8216 section 4.3.2.4).
#[derive(Debug, Clone, Copy, PartialEq, Eq, PartialOrd, Ord, Hash)]
pub enum InitializationVector {
    /// A 128-bit vector for AES-128.
    Aes128([u8; 16]),
    /// A vector given by a number (the sequence number of a media segment).
    Number(u128),
    /// No vector is given.
    Missing,
}

/// The lowercase hexadecimal digit of `n` (below 16).
pub open spec fn hex_char(n: nat) -> char {
    if n < 10 {
        (n + '0' as nat) as char
    } else {
        (n - 10 + 'a' as nat) as char
    }
}

/// The lowercase hexadecimal text of `b`, two digits per byte.
pub open spec fn hex_text(b: Seq<u8>) -> Seq<char>
    decreases b.len(),
{
    if b.len() == 0 {
        seq![]
    } else {
        hex_text(b.drop_last()) + seq![hex_char(b.last() as nat / 16), hex_char(b.last() as nat % 16)]
    }
}

/// The bytes of the ASCII characters `s`.
pub open spec fn ascii_bytes(s: Seq<char>) -> Seq<u8> {
    Seq::new(s.len(), |i: int| s[i] as u8)
}

/// Every character of `s` is ASCII.
pub open spec fn all_ascii(s: Seq<char>) -> bool {
    forall|i: int| 0 <= i < s.len() ==> (#[trigger] s[i]) < '\u{80}'
}

/// The 16 bytes that the text `s` (`0x` or `0X` and 32 hexadecimal digits) denotes.
pub open spec fn iv_bytes_of_text(s: Seq<char>) -> Option<Seq<u8>> {
    if s.len() == 34 && s[0] == '0' && (s[1] == 'x' || s[1] == 'X') && all_ascii(s.skip(2))
        && first_invalid(ascii_bytes(s.skip(2))) is None {
        Some(decoded(ascii_bytes(s.skip(2))))
    } else {
        None
    }
}

impl InitializationVector {
    /// The text of the vector: `0x` and 32 lowercase hexadecimal digits, or nothing
    /// when it is missing.
    pub open spec fn spec_to_string(self) -> Seq<char> {
        match self {
            InitializationVector::Aes128(b) => seq!['0', 'x'] + hex_text(b@),
            InitializationVector::Number(n) => seq!['0', 'x'] + hex_fixed(n as nat, 32),
            InitializationVector::Missing => seq![],
        }
    }

    /// Whether a vector is given.
    pub fn is_some(&self) -> (res: bool)
        ensures
            res == !(self is Missing),
    {
        match self {
            InitializationVector::Aes128(_) => true,
            InitializationVector::Number(_) => true,
            InitializationVector::Missing => false,
        }
    }

    /// Whether no vector is given.
    pub fn is_none(&self) -> (res: bool)
        ensures
            res == (self is Missing),
    {
        !self.is_some()
    }

    /// The bytes of the vector, if it is given.
    pub fn to_slice(&self) -> (res: Option<[u8; 16]>)
        ensures
            match self {
                InitializationVector::Aes128(b) => res == Some(*b),
                _ => res is None,
            },
    {
        match self {
            InitializationVector::Aes128(b) => Some(*b),
            _ => None,
        }
    }

    /// Appends the text of the vector to `out`.
    pub fn write(&self, out: &mut Vec<char>)
        ensures
            final(out)@ == old(out)@ + self.spec_to_string(),
    {
        match self {
            InitializationVector::Aes128(b) => {
                let ghost start = out@;
                out.push('0');
                out.push('x');
                let mut i: usize = 0;
                while i < 16
                    invariant
                        i <= 16,
                        b@.len() == 16,
                        out@ == start + seq!['0', 'x'] + hex_text(b@.take(i as int)),
                    decreases 16 - i,
                {
                    let x = b[i];
                    assert(b@.take(i + 1).drop_last() == b@.take(i as int));
                    assert(b@.take(i + 1).last() == x);
                    out.push(hex_digit(x / 16));
                    out.push(hex_digit(x % 16));
                    assert(out@ =~= start + seq!['0', 'x'] + hex_text(b@.take(i + 1)));
                    i = i + 1;
                }
                assert(b@.take(16) == b@);
            },
            InitializationVector::Number(n) => {
                out.push('0');
                out.push('x');
                push_hex_fixed(out, *n, 32);
            },
            InitializationVector::Missing => {
                assert(out@ == old(out)@ + Seq::<char>::empty());
            },
        }
    }

    /// The text of the vector.
    pub fn to_string(&self) -> (res: String)
        ensures
            res@ == self.spec_to_string(),
    {
        let mut out = Vec::new();
        self.write(&mut out);
        string_of(&out)
    }

    /// Reads a vector from its text.
    pub fn parse_chars(v: &Vec<char>) -> (res: Result<InitializationVector, Error>)
        ensures
            res is Ok <==> iv_bytes_of_text(v@) is Some,
            res matches Ok(x) ==> x matches InitializationVector::Aes128(b) && iv_bytes_of_text(
                v@,
            ) == Some(b@),
    {
        if !(v.len() == 34 && v[0] == '0' && (v[1] == 'x' || v[1] == 'X')) {
            return Err(Error::InvalidInput);
        }
        let ghost body = v@.skip(2);
        let mut bytes: Vec<u8> = Vec::new();
        let mut i: usize = 2;
        while i < 34
            invariant
                2 <= i <= 34,
                v@.len() == 34,
                body == v@.skip(2),
                bytes@.len() == i - 2,
                forall|k: int| 0 <= k < i - 2 ==> (#[trigger] body[k]) < '\u{80}',
                forall|k: int| 0 <= k < i - 2 ==> bytes@[k] == body[k] as u8,
            decreases 34 - i,
        {
            let c = v[i];
            assert(body[i - 2] == c);
            if c >= '\u{80}' {
                assert(!all_ascii(body));
                return Err(Error::InvalidInput);
            }
            bytes.push(c as u8);
            i = i + 1;
        }
        assert(bytes@ =~= ascii_bytes(body));
        let mut result = [0u8; 16];
        match decode_to_slice(bytes.as_slice(), &mut result) {
            Ok(()) => {
                assert(result@ =~= decoded(ascii_bytes(body)));
                Ok(InitializationVector::Aes128(result))
            },
            Err(_) => Err(Error::InvalidHex(String::from_str("not a hexadecimal digit"))),
        }
    }

    /// Reads a vector from its text (`0x` and 32 hexadecimal digits).
    pub fn try_from(input: &str) -> (res: Result<InitializationVector, Error>)
        ensures
            res is Ok <==> iv_bytes_of_text(input@) is Some,
            res matches Ok(x) ==> x matches InitializationVector::Aes128(b) && iv_bytes_of_text(
                input@,
            ) == Some(b@),
    {
        Self::parse_chars(&chars_of(input))
    }
}

/// The last `k` lowercase hexadecimal digits of `n`, with leading zeros.
pub open spec fn hex_fixed(n: nat, k: nat) -> Seq<char>
    decreases k,
{
    if k == 0 {
        seq![]
    } else {
        hex_fixed(n / 16, (k - 1) as nat).push(hex_char(n % 16))
    }
}

/// Appends `hex_fixed(n, k)` to `out`.
fn push_hex_fixed(out: &mut Vec<char>, n: u128, k: u64)
    ensures
        final(out)@ == old(out)@ + hex_fixed(n as nat, k as nat),
    decreases k,
{
    if k > 0 {
        push_hex_fixed(out, n / 16, k - 1);
        out.push(hex_digit((n % 16) as u8));
    }
}

/// The lowercase hexadecimal digit of `n`.
pub(crate) fn hex_digit(n: u8) -> (res: char)
    requires
        n < 16,
    ensures
        res == hex_char(n as nat),
{
    if n < 10 {
        (48u8 + n) as char
    } else {
        (87u8 + n) as char
    }
}

/// Whether two vectors are the same.
fn same_iv(a: &InitializationVector, b: &InitializationVector) -> (res: bool)
    ensures
        res == (*a == *b),
{
    let av: InitializationVector = *a;
    let bv: InitializationVector = *b;
    match av {
        InitializationVector::Aes128(x) => match bv {
            InitializationVector::Aes128(y) => {
                let mut i: usize = 0;
                while i < 16
                    invariant
                        i <= 16,
                        av == *a,
                        bv == *b,
                        av == InitializationVector::Aes128(x),
                        bv == InitializationVector::Aes128(y),
                        forall|j: int| 0 <= j < i ==> x[j] == y[j],
                    decreases 16 - i,
                {
                    if x[i] != y[i] {
                        assert(x@[i as int] != y@[i as int]);
                        assert(x@ != y@);
                        return false;
                    }
                    i = i + 1;
                }
                assert(x =~= y);
                true
            },
            _ => false,
        },
        InitializationVector::Number(m) => match bv {
            InitializationVector::Number(n) => m == n,
            _ => false,
        },
        InitializationVector::Missing => match bv {
            InitializationVector::Missing => true,
            _ => false,
        },
    }
}

/// The vector whose bytes are `b`.
pub open spec fn iv_of_bytes(b: Seq<u8>) -> InitializationVector {
    InitializationVector::Aes128(choose|a: [u8; 16]| a@ == b)
}

impl AttrValue for InitializationVector {
    open spec fn spec_value(s: Seq<char>) -> Option<InitializationVector> {
        match iv_bytes_of_text(s) {
            Some(b) => Some(iv_of_bytes(b)),
            None => None,
        }
    }

    fn parse_value(v: &Vec<char>) -> (res: Result<InitializationVector, Error>) {
        let r = Self::parse_chars(v);
        proof {
            if let Ok(InitializationVector::Aes128(b)) = r {
                let c = choose|a: [u8; 16]| a@ == b@;
                assert(c@ == b@);
                assert(c =~= b);
            }
        }
        r
    }
}

/// The parts of a decryption key, with its text fields taken by their characters.
pub struct KeyView {
    pub method: EncryptionMethod,
    pub uri: Seq<char>,
    pub iv: InitializationVector,
    pub format: Option<KeyFormat>,
    pub versions: Option<Seq<u16>>,
}

/// How to decrypt media segments: the method, the location of the key and how to
/// use it (RFC 8216, section 4.3.2.4).
#[derive(Debug, Clone, PartialEq, Eq, PartialOrd, Ord, Hash)]
pub struct DecryptionKey {
    /// The encryption method.
    pub method: EncryptionMethod,
    /// Where the key can be obtained.
    pub uri: String,
    /// The initialization vector.
    pub iv: InitializationVector,
    /// How the key is represented.
    pub format: Option<KeyFormat>,
    /// The versions of the key format.
    pub versions: Option<KeyFormatVersions>,
}

impl View for DecryptionKey {
    type V = KeyView;

    open spec fn view(&self) -> KeyView {
        KeyView {
            method: self.method,
            uri: self.uri@,
            iv: self.iv,
            format: self.format,
            versions: match self.versions {
                Some(v) => Some(v@),
                None => None,
            },
        }
    }
}

/// The text of versions: joined by `/`, between double quotes.
pub open spec fn versions_text(v: Seq<u16>) -> Seq<char> {
    seq!['"'] + join_versions(v) + seq!['"']
}

/// The attribute list of a key.
pub open spec fn key_text(k: KeyView) -> Seq<char> {
    "METHOD="@ + k.method.name() + ",URI="@ + quoted(k.uri) + (if !(k.iv is Missing) {
        ",IV="@ + k.iv.spec_to_string()
    } else {
        seq![]
    }) + (match k.format {
        Some(f) => ",KEYFORMAT="@ + f.spec_to_string(),
        None => seq![],
    }) + (match k.versions {
        Some(v) => if v != seq![1u16] {
            ",KEYFORMATVERSIONS="@ + versions_text(v)
        } else {
            seq![]
        },
        None => seq![],
    })
}

/// The last of the values `vals` that is not blank once its double quotes are
/// removed, without them.
pub open spec fn uri_of(vals: Seq<Seq<char>>) -> Option<Seq<char>>
    decreases vals.len(),
{
    if vals.len() == 0 {
        None
    } else if trim(strip_quotes(vals.last())).len() > 0 {
        Some(strip_quotes(vals.last()))
    } else {
        uri_of(vals.drop_last())
    }
}

/// Every value of `vals` lists versions.
pub open spec fn all_versions(vals: Seq<Seq<char>>) -> bool {
    forall|i: int| 0 <= i < vals.len() ==> (#[trigger] versions_of_text(vals[i])) is Some
}

/// The values of the attributes of a key that are read as numbers, names or vectors
/// can all be read.
pub open spec fn key_attrs_ok(ps: Seq<(Seq<char>, Seq<char>)>) -> bool {
    &&& attr_ok::<EncryptionMethod>(ps, "METHOD"@)
    &&& attr_ok::<InitializationVector>(ps, "IV"@)
    &&& attr_ok::<KeyFormat>(ps, "KEYFORMAT"@)
    &&& all_versions(values_for(ps, "KEYFORMATVERSIONS"@))
}

/// The key that the attribute list `ps` describes. A later attribute overrides an
/// earlier one; a blank `URI` is ignored; unknown attributes are ignored.
pub open spec fn key_of_pairs(ps: Seq<(Seq<char>, Seq<char>)>) -> Option<KeyView> {
    let vv = values_for(ps, "KEYFORMATVERSIONS"@);
    if key_attrs_ok(ps) {
        match (attr_val::<EncryptionMethod>(ps, "METHOD"@), uri_of(values_for(ps, "URI"@))) {
            (Some(m), Some(u)) => Some(
                KeyView {
                    method: m,
                    uri: u,
                    iv: match attr_val::<InitializationVector>(ps, "IV"@) {
                        Some(x) => x,
                        None => InitializationVector::Missing,
                    },
                    format: attr_val::<KeyFormat>(ps, "KEYFORMAT"@),
                    versions: if vv.len() == 0 {
                        None
                    } else {
                        versions_of_text(vv.last())
                    },
                },
            ),
            _ => None,
        }
    } else {
        None
    }
}

/// The protocol version that a key needs: 5 with a key format or versions, 2 with an
/// initialization vector, else 1.
pub open spec fn key_version(k: KeyView) -> ProtocolVersion {
    if k.format is Some || k.versions is Some {
        ProtocolVersion::V5
    } else if !(k.iv is Missing) {
        ProtocolVersion::V2
    } else {
        ProtocolVersion::V1
    }
}

/// Finds the last value that is not blank once unquoted.
fn find_uri(vals: &Vec<Vec<char>>) -> (res: Option<String>)
    ensures
        match uri_of(char_views(vals@)) {
            Some(u) => res matches Some(s) && s@ == u,
            None => res is None,
        },
{
    let ghost cv = char_views(vals@);
    let mut i: usize = vals.len();
    assert(cv.take(i as int) == cv);
    while i > 0
        invariant
            i <= vals@.len(),
            cv == char_views(vals@),
            uri_of(cv) == uri_of(cv.take(i as int)),
        decreases i,
    {
        let u = unquote(&vals[i - 1]);
        let t = trimmed(&u, 0, u.len());
        assert(u@.subrange(0, u@.len() as int) == u@);
        assert(cv.take(i as int).last() == vals@[i - 1]@);
        assert(cv.take(i as int).drop_last() == cv.take(i - 1));
        if t.len() > 0 {
            return Some(string_of(&u));
        }
        i = i - 1;
    }
    assert(cv.take(0).len() == 0);
    None
}

/// Reads every `KEYFORMATVERSIONS` value and gives the last one.
fn last_versions(vals: &Vec<Vec<char>>) -> (res: Result<Option<KeyFormatVersions>, Error>)
    ensures
        res is Ok <==> all_versions(char_views(vals@)),
        res matches Ok(o) ==> match o {
            Some(x) => char_views(vals@).len() > 0 && versions_of_text(
                char_views(vals@).last(),
            ) == Some(x@),
            None => char_views(vals@).len() == 0,
        },
{
    let ghost cv = char_views(vals@);
    let mut last: Option<KeyFormatVersions> = None;
    let mut i: usize = 0;
    while i < vals.len()
        invariant
            i <= vals@.len(),
            cv == char_views(vals@),
            forall|j: int| 0 <= j < i ==> (#[trigger] versions_of_text(cv[j])) is Some,
            i == 0 ==> last is None,
            i > 0 ==> (last matches Some(x) && versions_of_text(cv[i - 1]) == Some(x@)),
        decreases vals@.len() - i,
    {
        assert(cv[i as int] == vals@[i as int]@);
        match KeyFormatVersions::parse_chars(&vals[i]) {
            Ok(x) => {
                last = Some(x);
            },
            Err(e) => {
                assert(!all_versions(cv));
                return Err(e);
            },
        }
        i = i + 1;
    }
    Ok(last)
}

impl DecryptionKey {
    /// A key with the given method and location.
    pub fn new(method: EncryptionMethod, uri: &str) -> (res: DecryptionKey)
        ensures
            res@.method == method,
            res@.uri == uri@,
            res@.iv == InitializationVector::Missing,
            res@.format is None,
            res@.versions is None,
    {
        DecryptionKey {
            method,
            uri: String::from_str(uri),
            iv: InitializationVector::Missing,
            format: None,
            versions: None,
        }
    }

    /// A copy of the key.
    pub fn copy(&self) -> (res: DecryptionKey)
        ensures
            res@ == self@,
    {
        DecryptionKey {
            method: self.method,
            uri: self.uri.clone(),
            iv: self.iv,
            format: self.format,
            versions: match &self.versions {
                Some(v) => Some(v.copy()),
                None => None,
            },
        }
    }

    /// Whether two keys are the same.
    pub fn same_as(&self, other: &DecryptionKey) -> (res: bool)
        ensures
            res == (self@ == other@),
    {
        let same_method = match (self.method, other.method) {
            (EncryptionMethod::Aes128, EncryptionMethod::Aes128) => true,
            (EncryptionMethod::SampleAes, EncryptionMethod::SampleAes) => true,
            _ => false,
        };
        if !same_method {
            return false;
        }
        if !crate::text::equals_chars(&chars_of(self.uri.as_str()), &chars_of(other.uri.as_str())) {
            return false;
        }
        if !same_iv(&self.iv, &other.iv) {
            return false;
        }
        let same_format = match self.format {
            Some(KeyFormat::Identity) => match other.format {
                Some(KeyFormat::Identity) => {
                    assert(self.format == Some(KeyFormat::Identity));
                    assert(other.format == Some(KeyFormat::Identity));
                    true
                },
                None => false,
            },
            None => other.format.is_none(),
        };
        if !same_format {
            return false;
        }
        match (&self.versions, &other.versions) {
            (Some(a), Some(b)) => a.same_as(b),
            (None, None) => true,
            _ => false,
        }
    }

    /// A builder for a key.
    pub fn builder() -> (res: DecryptionKeyBuilder)
        ensures
            res.method is None && res.uri is None && res.iv is None && res.format is None
                && res.versions is None,
    {
        DecryptionKeyBuilder { method: None, uri: None, iv: None, format: None, versions: None }
    }

    /// Where the key can be obtained.
    pub fn uri(&self) -> (res: &String)
        ensures
            res@ == self@.uri,
    {
        &self.uri
    }

    /// Sets where the key can be obtained.
    pub fn set_uri(&mut self, value: &str)
        ensures
            final(self)@ == (KeyView { uri: value@, ..old(self)@ }),
    {
        self.uri = String::from_str(value);
    }

    /// The protocol version that this key needs.
    pub fn required_version(&self) -> (res: ProtocolVersion)
        ensures
            res == key_version(self@),
    {
        if self.format.is_some() || self.versions.is_some() {
            ProtocolVersion::V5
        } else if self.iv.is_some() {
            ProtocolVersion::V2
        } else {
            ProtocolVersion::V1
        }
    }

    /// The attribute list of the key.
    pub open spec fn spec_to_string(self) -> Seq<char> {
        key_text(self@)
    }

    /// Appends the attribute list of the key to `out`.
    pub fn write(&self, out: &mut Vec<char>)
        ensures
            final(out)@ == old(out)@ + self.spec_to_string(),
    {
        let ghost k = self@;
        let ghost start = out@;
        push_str(out, "METHOD=");
        self.method.write(out);
        push_str(out, ",URI=");
        push_quoted_string(out, &self.uri);
        let ghost a = out@;
        assert(a == start + ("METHOD="@ + k.method.name() + ",URI="@ + quoted(k.uri)));
        if self.iv.is_some() {
            push_str(out, ",IV=");
            self.iv.write(out);
        }
        let ghost b = out@;
        match &self.format {
            Some(f) => {
                push_str(out, ",KEYFORMAT=");
                f.write(out);
            },
            None => {},
        }
        let ghost c = out@;
        match &self.versions {
            Some(v) => {
                if !v.is_default() {
                    push_str(out, ",KEYFORMATVERSIONS=");
                    v.write(out);
                }
            },
            None => {},
        }
        assert(out@ =~= start + key_text(k));
    }

    /// The attribute list of the key.
    pub fn to_string(&self) -> (res: String)
        ensures
            res@ == self.spec_to_string(),
    {
        let mut out = Vec::new();
        self.write(&mut out);
        string_of(&out)
    }

    /// Reads a key from its attribute list.
    pub fn parse_chars(v: &Vec<char>) -> (res: Result<DecryptionKey, Error>)
        ensures
            res is Ok <==> key_of_pairs(crate::attribute::attr_pairs(v@)) is Some,
            res matches Ok(k) ==> key_of_pairs(crate::attribute::attr_pairs(v@)) == Some(k@),
            key_attrs_ok(crate::attribute::attr_pairs(v@)) && attr_val::<EncryptionMethod>(
                crate::attribute::attr_pairs(v@),
                "METHOD"@,
            ) is None ==> (res matches Err(Error::MissingValue { value }) && value@ == "METHOD"@),
    {
        let pairs = pairs_of(v);
        let method = parse_attr::<EncryptionMethod>(&pairs, "METHOD")?;
        let iv = parse_attr::<InitializationVector>(&pairs, "IV")?;
        let format = parse_attr::<KeyFormat>(&pairs, "KEYFORMAT")?;
        let versions = last_versions(&values_of(&pairs, "KEYFORMATVERSIONS"))?;
        let uri = find_uri(&values_of(&pairs, "URI"));
        let method = match method {
            Some(m) => m,
            None => {
                return Err(Error::MissingValue { value: String::from_str("METHOD") });
            },
        };
        let uri = match uri {
            Some(u) => u,
            None => {
                return Err(Error::MissingValue { value: String::from_str("URI") });
            },
        };
        let iv = match iv {
            Some(x) => x,
            None => InitializationVector::Missing,
        };
        let res = DecryptionKey { method, uri, iv, format, versions };
        assert(res@ == key_of_pairs(crate::attribute::attr_pairs(v@)).unwrap());
        Ok(res)
    }

    /// Reads a key from its attribute list.
    pub fn try_from(input: &str) -> (res: Result<DecryptionKey, Error>)
        ensures
            res is Ok <==> key_of_pairs(crate::attribute::attr_pairs(input@)) is Some,
            res matches Ok(k) ==> key_of_pairs(crate::attribute::attr_pairs(input@)) == Some(k@),
    {
        Self::parse_chars(&chars_of(input))
    }
}

/// A builder for a [`DecryptionKey`].
#[derive(Debug, Clone)]
pub struct DecryptionKeyBuilder {
    pub method: Option<EncryptionMethod>,
    pub uri: Option<String>,
    pub iv: Option<InitializationVector>,
    pub format: Option<KeyFormat>,
    pub versions: Option<KeyFormatVersions>,
}

impl DecryptionKeyBuilder {
    /// Sets the encryption method.
    pub fn method(self, value: EncryptionMethod) -> (res: DecryptionKeyBuilder)
        ensures
            res.method == Some(value),
            res.uri == self.uri,
            res.iv == self.iv,
            res.format == self.format,
            res.versions == self.versions,
    {
        DecryptionKeyBuilder { method: Some(value), ..self }
    }

    /// Sets where the key can be obtained.
    pub fn uri(self, value: &str) -> (res: DecryptionKeyBuilder)
        ensures
            res.uri matches Some(u) && u@ == value@,
            res.method == self.method,
            res.iv == self.iv,
            res.format == self.format,
            res.versions == self.versions,
    {
        DecryptionKeyBuilder { uri: Some(String::from_str(value)), ..self }
    }

    /// Sets the initialization vector.
    pub fn iv(self, value: [u8; 16]) -> (res: DecryptionKeyBuilder)
        ensures
            res.iv == Some(InitializationVector::Aes128(value)),
            res.method == self.method,
            res.uri == self.uri,
            res.format == self.format,
            res.versions == self.versions,
    {
        DecryptionKeyBuilder { iv: Some(InitializationVector::Aes128(value)), ..self }
    }

    /// Sets the key format.
    pub fn format(self, value: KeyFormat) -> (res: DecryptionKeyBuilder)
        ensures
            res.format == Some(value),
            res.method == self.method,
            res.uri == self.uri,
            res.iv == self.iv,
            res.versions == self.versions,
    {
        DecryptionKeyBuilder { format: Some(value), ..self }
    }

    /// Sets the versions of the key format (an empty list stands for `[1]`).
    pub fn versions(self, value: Vec<u16>) -> (res: DecryptionKeyBuilder)
        ensures
            res.versions matches Some(v) && (value@.len() > 0 ==> v@ == value@) && (value@.len()
                == 0 ==> v@ == seq![1u16]),
            res.method == self.method,
            res.uri == self.uri,
            res.iv == self.iv,
            res.format == self.format,
    {
        DecryptionKeyBuilder { versions: Some(KeyFormatVersions::from_vec(value)), ..self }
    }

    /// Builds the key: the method and the location are required.
    pub fn build(self) -> (res: Result<DecryptionKey, String>)
        ensures
            self.method is None ==> (res matches Err(m) && m@ == "`method` must be initialized"@),
            self.method is Some && self.uri is None ==> (res matches Err(m) && m@
                == "`uri` must be initialized"@),
            self.method is Some && self.uri is Some ==> (res matches Ok(k) && k.method
                == self.method.unwrap() && k.uri == self.uri.unwrap() && k.iv == (match self.iv {
                Some(x) => x,
                None => InitializationVector::Missing,
            }) && k.format == self.format && k.versions == self.versions),
    {
        let method = match self.method {
            Some(m) => m,
            None => {
                return Err(String::from_str("`method` must be initialized"));
            },
        };
        let uri = match self.uri {
            Some(u) => u,
            None => {
                return Err(String::from_str("`uri` must be initialized"));
            },
        };
        let iv = match self.iv {
            Some(x) => x,
            None => InitializationVector::Missing,
        };
        Ok(DecryptionKey { method, uri, iv, format: self.format, versions: self.versions })
    }
}

/// The digits of `hex_text(b)`: two per byte, the high one first.
proof fn lemma_hex_text(b: Seq<u8>)
    ensures
        hex_text(b).len() == 2 * b.len(),
        forall|j: int|
            #![trigger b[j]]
            0 <= j < b.len() ==> hex_text(b)[2 * j] == hex_char(b[j] as nat / 16) && hex_text(
                b,
            )[2 * j + 1] == hex_char(b[j] as nat % 16),
    decreases b.len(),
{
    if b.len() > 0 {
        let c = b.drop_last();
        lemma_hex_text(c);
        let h = hex_text(c);
        let t = hex_text(b);
        assert forall|j: int| #![trigger b[j]] 0 <= j < b.len() implies t[2 * j] == hex_char(
            b[j] as nat / 16,
        ) && t[2 * j + 1] == hex_char(b[j] as nat % 16) by {
            if j < b.len() - 1 {
                assert(b[j] == c[j]);
                assert(t[2 * j] == h[2 * j]);
                assert(t[2 * j + 1] == h[2 * j + 1]);
            } else {
                assert(b[j] == b.last());
            }
        }
    }
}

/// A hexadecimal digit is an ASCII character whose value is its number.
proof fn lemma_hex_char_nibble(n: nat)
    requires
        n < 16,
    ensures
        hex_char(n) < '\u{80}',
        nibble(hex_char(n) as u8) == Some(n as u8),
        ('0' <= hex_char(n) <= '9') || ('a' <= hex_char(n) <= 'f'),
{
}

/// Reading the text of a 16-byte vector gives its bytes back.
proof fn lemma_iv_text_roundtrip(arr: [u8; 16])
    ensures
        iv_bytes_of_text(seq!['0', 'x'] + hex_text(arr@)) == Some(arr@),
        iv_of_bytes(arr@) == InitializationVector::Aes128(arr),
{
    let b = arr@;
    lemma_hex_text(b);
    let h = hex_text(b);
    let t = seq!['0', 'x'] + h;
    assert(t.skip(2) == h);
    assert forall|i: int| 0 <= i < h.len() implies (#[trigger] h[i]) < '\u{80}' && nibble(
        h[i] as u8,
    ) is Some by {
        let j = i / 2;
        assert(0 <= j < b.len());
        lemma_hex_char_nibble(b[j] as nat / 16);
        lemma_hex_char_nibble(b[j] as nat % 16);
        if i % 2 == 0 {
            assert(i == 2 * j);
        } else {
            assert(i == 2 * j + 1);
        }
    }
    let bytes = ascii_bytes(h);
    lemma_first_invalid(bytes);
    if let Some(i) = first_invalid(bytes) {
        assert(bytes[i] == h[i] as u8);
    }
    assert(decoded(bytes) =~= b) by {
        assert forall|j: int| 0 <= j < b.len() implies #[trigger] decoded(bytes)[j] == b[j] by {
            lemma_hex_char_nibble(b[j] as nat / 16);
            lemma_hex_char_nibble(b[j] as nat % 16);
            assert(bytes[2 * j] == h[2 * j] as u8);
            assert(bytes[2 * j + 1] == h[2 * j + 1] as u8);
            assert(byte_at(bytes, j) == ((b[j] as nat / 16) * 16 + b[j] as nat % 16) as u8);
        }
    }
    assert(arr@ == b);
    if let InitializationVector::Aes128(c) = iv_of_bytes(b) {
        assert(c@ == b);
        assert(c =~= arr);
    }
}

/// Splitting `a`, a separator `c` and a piece `b` without `c` gives the pieces of `a`
/// and then `b`.
proof fn lemma_split_on_push(a: Seq<char>, c: char, b: Seq<char>)
    requires
        forall|i: int| 0 <= i < b.len() ==> b[i] != c,
    ensures
        split_on(a + seq![c] + b, c) == split_on(a, c).push(b),
    decreases a.len(),
{
    let s = a + seq![c] + b;
    lemma_find_char(a, c);
    lemma_find_char(b, c);
    assert(find_char(b, c) is None) by {
        if let Some(k) = find_char(b, c) {
            assert(b[k] == c);
        }
    }
    assert(split_on(b, c) == seq![b]);
    match find_char(a, c) {
        Some(k) => {
            assert forall|j: int| 0 <= j < k implies s[j] != c by {
                assert(s[j] == a[j]);
            }
            lemma_find_char_at(s, c, k);
            assert(s.take(k) == a.take(k));
            assert(s.skip(k + 1) == a.skip(k + 1) + seq![c] + b);
            lemma_split_on_push(a.skip(k + 1), c, b);
            assert(split_on(s, c) == seq![a.take(k)] + split_on(a.skip(k + 1), c).push(b));
            assert(split_on(a, c) == seq![a.take(k)] + split_on(a.skip(k + 1), c));
            assert(split_on(s, c) =~= split_on(a, c).push(b));
        },
        None => {
            assert forall|j: int| 0 <= j < a.len() implies s[j] != c by {
                assert(s[j] == a[j]);
            }
            lemma_find_char_at(s, c, a.len() as int);
            assert(s.take(a.len() as int) == a);
            assert(s.skip(a.len() + 1int) == b);
            assert(split_on(a, c) == seq![a]);
            assert(split_on(s, c) =~= split_on(a, c).push(b));
        },
    }
}

/// The pieces of joined versions are the decimal texts of the versions, and the joined
/// text holds only digits and `/`.
proof fn lemma_join_versions(v: Seq<u16>)
    requires
        v.len() > 0,
    ensures
        split_on(join_versions(v), '/') == Seq::new(v.len(), |i: int| dec(v[i] as nat)),
        forall|i: int|
            0 <= i < join_versions(v).len() ==> is_digit(#[trigger] join_versions(v)[i])
                || join_versions(v)[i] == '/',
    decreases v.len(),
{
    let last = dec(v.last() as nat);
    lemma_dec(v.last() as nat);
    assert forall|i: int| 0 <= i < last.len() implies last[i] != '/' by {
        assert(is_digit(last[i]));
    }
    if v.len() == 1 {
        lemma_find_char(last, '/');
        assert(find_char(last, '/') is None) by {
            if let Some(k) = find_char(last, '/') {
                assert(last[k] == '/');
            }
        }
        assert(v.last() == v[0]);
        assert(split_on(join_versions(v), '/') =~= Seq::new(v.len(), |i: int| dec(v[i] as nat)));
    } else {
        let w = v.drop_last();
        lemma_join_versions(w);
        let j = join_versions(w);
        assert(join_versions(v) == j + seq!['/'] + last);
        lemma_split_on_push(j, '/', last);
        assert(split_on(join_versions(v), '/') =~= Seq::new(v.len(), |i: int| dec(v[i] as nat))) by {
            assert forall|i: int| 0 <= i < v.len() - 1 implies v[i] == w[i] by {}
        }
        let s = join_versions(v);
        assert forall|i: int| 0 <= i < s.len() implies is_digit(#[trigger] s[i]) || s[i] == '/' by {
            if i < j.len() {
                assert(s[i] == j[i]);
            } else if i > j.len() {
                assert(s[i] == last[i - j.len() - 1]);
            }
        }
    }
}

/// Reading the text of versions gives them back, when there is at least one.
proof fn lemma_versions_roundtrip(v: Seq<u16>)
    requires
        v.len() > 0,
    ensures
        versions_of_text(versions_text(v)) == Some(v),
{
    let j = join_versions(v);
    lemma_join_versions(v);
    assert forall|i: int| 0 <= i < j.len() implies j[i] != '"' && j[i] != '\n' && j[i] != '\r' by {
        assert(is_digit(j[i]) || j[i] == '/');
    }
    lemma_strip_quotes_id(j);
    let q = seq!['"'];
    assert(strip_quotes(q) == Seq::<char>::empty()) by {
        assert(q.drop_last() =~= Seq::<char>::empty());
        assert(q.last() == '"');
        assert(strip_quotes(q.drop_last()) =~= Seq::<char>::empty());
    }
    lemma_strip_quotes_concat(q + j, q);
    lemma_strip_quotes_concat(q, j);
    assert(versions_text(v) == q + j + q);
    assert(strip_quotes(versions_text(v)) == j);
    let pieces = split_on(j, '/');
    assert forall|i: int| 0 <= i < pieces.len() implies (#[trigger] parse_unsigned(
        trim(pieces[i]),
        65535,
    )) == Some(v[i] as nat) by {
        let d = dec(v[i] as nat);
        assert(pieces[i] == d);
        lemma_dec(v[i] as nat);
        assert(is_digit(d[0]));
        assert(is_digit(d.last()));
        lemma_trim_id(d);
    }
    assert(Seq::new(pieces.len(), |i: int| parse_unsigned(trim(pieces[i]), 65535).unwrap() as u16)
        =~= v);
}

/// Keys whose text reads back as themselves: the location holds no double quote, line
/// feed or carriage return and is not blank, a vector is given by its bytes, and listed
/// versions are not empty and are not the default `[1]` (which the text leaves out).
pub open spec fn key_reads_back(k: KeyView) -> bool {
    &&& strip_quotes(k.uri) == k.uri
    &&& trim(k.uri).len() > 0
    &&& !(k.iv is Number)
    &&& (k.versions matches Some(v) ==> v.len() > 0 && v != seq![1u16])
}

/// The attribute pairs that the text of the key `k` lists, in order.
spec fn key_pairs(k: KeyView) -> Seq<(Seq<char>, Seq<char>)> {
    let p0 = Seq::empty().push(("METHOD"@, k.method.name())).push(("URI"@, quoted(k.uri)));
    let p1 = if !(k.iv is Missing) {
        p0.push(("IV"@, k.iv.spec_to_string()))
    } else {
        p0
    };
    let p2 = match k.format {
        Some(f) => p1.push(("KEYFORMAT"@, f.spec_to_string())),
        None => p1,
    };
    match k.versions {
        Some(v) => if v != seq![1u16] {
            p2.push(("KEYFORMATVERSIONS"@, versions_text(v)))
        } else {
            p2
        },
        None => p2,
    }
}

/// The text of a key is the attribute list of its pairs.
proof fn lemma_key_text_pairs(k: KeyView)
    ensures
        key_text(k) == attr_list(key_pairs(k)),
{
    reveal_strlit("METHOD=");
    reveal_strlit("METHOD");
    reveal_strlit(",URI=");
    reveal_strlit("URI");
    reveal_strlit(",IV=");
    reveal_strlit("IV");
    reveal_strlit(",KEYFORMAT=");
    reveal_strlit("KEYFORMAT");
    reveal_strlit(",KEYFORMATVERSIONS=");
    reveal_strlit("KEYFORMATVERSIONS");
    let m = ("METHOD"@, k.method.name());
    let u = ("URI"@, quoted(k.uri));
    let e = Seq::<(Seq<char>, Seq<char>)>::empty();
    let p0 = e.push(m).push(u);
    lemma_attr_list_push(e, m);
    lemma_attr_list_push(e.push(m), u);
    assert(attr_list(e) == Seq::<char>::empty());
    let t0 = "METHOD="@ + k.method.name() + ",URI="@ + quoted(k.uri);
    assert(attr_list(p0) =~= t0);
    let i_part = if !(k.iv is Missing) {
        ",IV="@ + k.iv.spec_to_string()
    } else {
        seq![]
    };
    let p1 = if !(k.iv is Missing) {
        p0.push(("IV"@, k.iv.spec_to_string()))
    } else {
        p0
    };
    if !(k.iv is Missing) {
        lemma_attr_list_push(p0, ("IV"@, k.iv.spec_to_string()));
    }
    assert(attr_list(p1) =~= t0 + i_part);
    let f_part = match k.format {
        Some(f) => ",KEYFORMAT="@ + f.spec_to_string(),
        None => seq![],
    };
    let p2 = match k.format {
        Some(f) => p1.push(("KEYFORMAT"@, f.spec_to_string())),
        None => p1,
    };
    if let Some(f) = k.format {
        lemma_attr_list_push(p1, ("KEYFORMAT"@, f.spec_to_string()));
    }
    assert(attr_list(p2) =~= t0 + i_part + f_part);
    if let Some(v) = k.versions {
        if v != seq![1u16] {
            lemma_attr_list_push(p2, ("KEYFORMATVERSIONS"@, versions_text(v)));
            assert(attr_list(key_pairs(k)) =~= t0 + i_part + f_part + (",KEYFORMATVERSIONS="@
                + versions_text(v)));
        }
    }
}

/// The values of the pairs of a key that reads back as itself are well-formed.
proof fn lemma_key_pairs_wf(k: KeyView)
    requires
        key_reads_back(k),
    ensures
        wf_pairs(key_pairs(k)),
{
    reveal_strlit("METHOD");
    reveal_strlit("URI");
    reveal_strlit("IV");
    reveal_strlit("KEYFORMAT");
    reveal_strlit("KEYFORMATVERSIONS");
    reveal_strlit("AES-128");
    reveal_strlit("SAMPLE-AES");
    reveal_strlit("identity");
    lemma_plain_key("METHOD"@);
    lemma_plain_key("URI"@);
    lemma_plain_key("IV"@);
    lemma_plain_key("KEYFORMAT"@);
    lemma_plain_key("KEYFORMATVERSIONS"@);
    let name = k.method.name();
    lemma_plain_value(name);
    lemma_quoted_wf_value(k.uri);
    let m = ("METHOD"@, name);
    let u = ("URI"@, quoted(k.uri));
    let e = Seq::<(Seq<char>, Seq<char>)>::empty();
    lemma_wf_pairs_push(e, m);
    lemma_wf_pairs_push(e.push(m), u);
    let p0 = e.push(m).push(u);
    let p1 = if !(k.iv is Missing) {
        p0.push(("IV"@, k.iv.spec_to_string()))
    } else {
        p0
    };
    if let InitializationVector::Aes128(a) = k.iv {
        let h = hex_text(a@);
        let t = seq!['0', 'x'] + h;
        lemma_hex_text(a@);
        assert forall|i: int| 0 <= i < t.len() implies t[i] != '"' && t[i] != ',' && !is_ws(
            #[trigger] t[i],
        ) by {
            if i >= 2 {
                let j = (i - 2) / 2;
                assert(0 <= j < 16);
                lemma_hex_char_nibble(a@[j] as nat / 16);
                lemma_hex_char_nibble(a@[j] as nat % 16);
                assert(t[i] == h[i - 2]);
                if (i - 2) % 2 == 0 {
                    assert(i - 2 == 2 * j);
                } else {
                    assert(i - 2 == 2 * j + 1);
                }
            }
        }
        assert(t.last() == t[t.len() - 1]);
        lemma_plain_value(t);
        lemma_wf_pairs_push(p0, ("IV"@, k.iv.spec_to_string()));
    }
    let p2 = match k.format {
        Some(f) => p1.push(("KEYFORMAT"@, f.spec_to_string())),
        None => p1,
    };
    if let Some(f) = k.format {
        lemma_quoted_wf_value("identity"@);
        lemma_wf_pairs_push(p1, ("KEYFORMAT"@, f.spec_to_string()));
    }
    if let Some(v) = k.versions {
        if v != seq![1u16] {
            lemma_versions_quoted(v);
            lemma_quoted_wf_value(join_versions(v));
            lemma_wf_pairs_push(p2, ("KEYFORMATVERSIONS"@, versions_text(v)));
        }
    }
}

/// The text of versions is their joined text between double quotes.
proof fn lemma_versions_quoted(v: Seq<u16>)
    requires
        v.len() > 0,
    ensures
        versions_text(v) == quoted(join_versions(v)),
{
    let j = join_versions(v);
    lemma_join_versions(v);
    assert forall|i: int| 0 <= i < j.len() implies j[i] != '"' && j[i] != '\n' && j[i] != '\r' by {
        assert(is_digit(j[i]) || j[i] == '/');
    }
    lemma_strip_quotes_id(j);
}

/// The names of the attributes of a key are different from each other.
proof fn lemma_key_names()
    ensures
        "METHOD"@.len() == 6,
        "URI"@.len() == 3,
        "IV"@.len() == 2,
        "KEYFORMAT"@.len() == 9,
        "KEYFORMATVERSIONS"@.len() == 17,
{
    reveal_strlit("METHOD");
    reveal_strlit("URI");
    reveal_strlit("IV");
    reveal_strlit("KEYFORMAT");
    reveal_strlit("KEYFORMATVERSIONS");
}

/// The values that the pairs of key `k` give to the attribute `key`.
spec fn key_values(k: KeyView, key: Seq<char>) -> Seq<Seq<char>> {
    if key == "METHOD"@ {
        seq![k.method.name()]
    } else if key == "URI"@ {
        seq![quoted(k.uri)]
    } else if key == "IV"@ {
        if !(k.iv is Missing) {
            seq![k.iv.spec_to_string()]
        } else {
            seq![]
        }
    } else if key == "KEYFORMAT"@ {
        match k.format {
            Some(f) => seq![f.spec_to_string()],
            None => seq![],
        }
    } else if key == "KEYFORMATVERSIONS"@ {
        match k.versions {
            Some(v) => if v != seq![1u16] {
                seq![versions_text(v)]
            } else {
                seq![]
            },
            None => seq![],
        }
    } else {
        seq![]
    }
}

proof fn lemma_key_values(k: KeyView, key: Seq<char>)
    ensures
        values_for(key_pairs(k), key) == key_values(k, key),
{
    lemma_key_names();
    let m = ("METHOD"@, k.method.name());
    let u = ("URI"@, quoted(k.uri));
    let e = Seq::<(Seq<char>, Seq<char>)>::empty();
    lemma_values_for_push(e, m, key);
    lemma_values_for_push(e.push(m), u, key);
    let p0 = e.push(m).push(u);
    let p1 = if !(k.iv is Missing) {
        p0.push(("IV"@, k.iv.spec_to_string()))
    } else {
        p0
    };
    if !(k.iv is Missing) {
        lemma_values_for_push(p0, ("IV"@, k.iv.spec_to_string()), key);
    }
    let p2 = match k.format {
        Some(f) => p1.push(("KEYFORMAT"@, f.spec_to_string())),
        None => p1,
    };
    if let Some(f) = k.format {
        lemma_values_for_push(p1, ("KEYFORMAT"@, f.spec_to_string()), key);
    }
    if let Some(v) = k.versions {
        if v != seq![1u16] {
            lemma_values_for_push(p2, ("KEYFORMATVERSIONS"@, versions_text(v)), key);
        }
    }
    assert(values_for(e, key) == Seq::<Seq<char>>::empty());
    assert(values_for(key_pairs(k), key) =~= key_values(k, key));
}

/// Reading the attribute list of a key gives the key back, when the key reads back as
/// itself.
pub proof fn lemma_key_roundtrip(k: KeyView)
    requires
        key_reads_back(k),
    ensures
        key_of_pairs(attr_pairs(key_text(k))) == Some(k),
{
    reveal_strlit("METHOD");
    reveal_strlit("URI");
    reveal_strlit("IV");
    reveal_strlit("KEYFORMAT");
    reveal_strlit("KEYFORMATVERSIONS");
    reveal_strlit("identity");
    lemma_key_text_pairs(k);
    lemma_key_pairs_wf(k);
    lemma_attr_roundtrip(key_pairs(k));
    let ps = key_pairs(k);
    assert(attr_pairs(key_text(k)) == ps);
    let km = "METHOD"@;
    let ku = "URI"@;
    let ki = "IV"@;
    let kf = "KEYFORMAT"@;
    let kv = "KEYFORMATVERSIONS"@;
    let name = k.method.name();
    let m = (km, name);
    let u = (ku, quoted(k.uri));
    let e = Seq::<(Seq<char>, Seq<char>)>::empty();
    let p0 = e.push(m).push(u);
    lemma_key_names();
    lemma_key_values(k, km);
    lemma_key_values(k, ku);
    lemma_key_values(k, ki);
    lemma_key_values(k, kf);
    lemma_key_values(k, kv);
    assert(km != ku && km != ki && km != kf && km != kv && ku != ki && ku != kf && ku != kv
        && ki != kf && ki != kv && kf != kv);
    assert(values_for(ps, km) == seq![name]);
    assert(values_for(ps, ku) == seq![quoted(k.uri)]);
    lemma_encryption_method_roundtrip(k.method);
    assert(attr_val::<EncryptionMethod>(ps, km) == Some(k.method));
    lemma_strip_quoted(k.uri);
    assert(uri_of(values_for(ps, ku)) == Some(k.uri)) by {
        let w = seq![quoted(k.uri)];
        assert(w.last() == quoted(k.uri));
    }
    if let InitializationVector::Aes128(a) = k.iv {
        lemma_iv_text_roundtrip(a);
    }
    assert(attr_ok::<InitializationVector>(ps, ki));
    assert(attr_val::<InitializationVector>(ps, ki) == if k.iv is Missing {
        None
    } else {
        Some(k.iv)
    });
    if let Some(f) = k.format {
        lemma_strip_quoted("identity"@);
        lemma_strip_quotes_id("identity"@);
        assert(f == KeyFormat::Identity);
    }
    assert(attr_ok::<KeyFormat>(ps, kf));
    assert(attr_val::<KeyFormat>(ps, kf) == k.format);
    if let Some(v) = k.versions {
        lemma_versions_roundtrip(v);
    }
    assert(all_versions(values_for(ps, kv)));
}

/// The text of a key starts with `METHOD=` and the name of its method, and neither
/// starts nor ends with white space.
pub proof fn lemma_key_text_ends(k: KeyView)
    ensures
        key_text(k).len() > 8,
        key_text(k)[0] == 'M',
        key_text(k)[7] == 'A' || key_text(k)[7] == 'S',
        !is_ws(key_text(k).last()),
{
    reveal_strlit("METHOD=");
    reveal_strlit(",URI=");
    reveal_strlit("AES-128");
    reveal_strlit("SAMPLE-AES");
    let t0 = "METHOD="@ + k.method.name() + ",URI="@ + quoted(k.uri);
    assert(t0.last() == '"');
    let i_part = if !(k.iv is Missing) {
        ",IV="@ + k.iv.spec_to_string()
    } else {
        seq![]
    };
    let f_part = match k.format {
        Some(f) => ",KEYFORMAT="@ + f.spec_to_string(),
        None => seq![],
    };
    let v_part = match k.versions {
        Some(v) => if v != seq![1u16] {
            ",KEYFORMATVERSIONS="@ + versions_text(v)
        } else {
            seq![]
        },
        None => seq![],
    };
    let t = key_text(k);
    assert(t == t0 + i_part + f_part + v_part);
    assert(t[0] == t0[0]);
    assert(t[7] == t0[7]);
    if v_part.len() > 0 {
        assert(t.last() == v_part.last());
    } else if f_part.len() > 0 {
        assert(t.last() == f_part.last());
    } else if i_part.len() > 0 {
        assert(t.last() == i_part.last());
        match k.iv {
            InitializationVector::Aes128(a) => {
                lemma_hex_text(a@);
                lemma_hex_char_nibble(a@[15int] as nat % 16);
                assert(hex_text(a@).last() == hex_text(a@)[31int]);
            },
            InitializationVector::Number(n) => {
                assert(hex_fixed(n as nat, 32).last() == hex_char(n as nat % 16));
                lemma_hex_char_nibble(n as nat % 16);
            },
            InitializationVector::Missing => {},
        }
    } else {
        assert(t.last() == t0.last());
    }
}

/// The text of a key that reads back as itself holds no line feed.
pub proof fn lemma_key_text_no_lf(k: KeyView)
    requires
        key_reads_back(k),
    ensures
        no_lf(key_text(k)),
{
    reveal_strlit("METHOD");
    reveal_strlit("URI");
    reveal_strlit("IV");
    reveal_strlit("KEYFORMAT");
    reveal_strlit("KEYFORMATVERSIONS");
    reveal_strlit("AES-128");
    reveal_strlit("SAMPLE-AES");
    reveal_strlit("identity");
    lemma_key_text_pairs(k);
    let name = k.method.name();
    assert(no_lf(name));
    lemma_quoted_no_lf(k.uri);
    let m = ("METHOD"@, name);
    let u = ("URI"@, quoted(k.uri));
    let e = Seq::<(Seq<char>, Seq<char>)>::empty();
    lemma_pairs_no_lf_push(e, m);
    lemma_pairs_no_lf_push(e.push(m), u);
    let p0 = e.push(m).push(u);
    let p1 = if !(k.iv is Missing) {
        p0.push(("IV"@, k.iv.spec_to_string()))
    } else {
        p0
    };
    if let InitializationVector::Aes128(a) = k.iv {
        let h = hex_text(a@);
        let t = seq!['0', 'x'] + h;
        lemma_hex_text(a@);
        assert forall|i: int| 0 <= i < t.len() implies t[i] != '\n' by {
            if i >= 2 {
                let j = (i - 2) / 2;
                lemma_hex_char_nibble(a@[j] as nat / 16);
                lemma_hex_char_nibble(a@[j] as nat % 16);
                assert(t[i] == h[i - 2]);
                if (i - 2) % 2 == 0 {
                    assert(i - 2 == 2 * j);
                } else {
                    assert(i - 2 == 2 * j + 1);
                }
            }
        }
        lemma_pairs_no_lf_push(p0, ("IV"@, k.iv.spec_to_string()));
    }
    let p2 = match k.format {
        Some(f) => p1.push(("KEYFORMAT"@, f.spec_to_string())),
        None => p1,
    };
    if let Some(f) = k.format {
        lemma_quoted_no_lf("identity"@);
        lemma_pairs_no_lf_push(p1, ("KEYFORMAT"@, f.spec_to_string()));
    }
    if let Some(v) = k.versions {
        if v != seq![1u16] {
            lemma_versions_quoted(v);
            lemma_quoted_no_lf(join_versions(v));
            lemma_pairs_no_lf_push(p2, ("KEYFORMATVERSIONS"@, versions_text(v)));
        }
    }
    lemma_attr_list_no_lf(key_pairs(k));
}

} // verus!
