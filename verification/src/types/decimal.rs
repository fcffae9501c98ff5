use vstd::prelude::*;

use crate::attribute::AttrValue;
use crate::error::Error;
use crate::text::{
    chars_of, dec, decimal_text, fixed_digits, is_digit, lemma_dec, lemma_decimal_roundtrip,
    lemma_decimal_value_zeros, lemma_find_char_at, lemma_fixed_digits, nine_digits,
    parse_decimal, parse_decimal_chars, pow10, push_decimal, push_fixed_digits, push_u64,
    slice_of, string_of, unsigned_digits, zeros,
};

verus! {

/// A non-negative decimal number: a whole part and a fraction in units of `10^-9`.
#[derive(Debug, Clone, Copy, PartialEq, Eq, Structural, PartialOrd, Ord, Hash)]
pub struct UFloat {
    whole: u64,
    frac: u32,
}

impl View for UFloat {
    type V = (u64, u32);

    /// The whole part and the fraction in units of `10^-9`.
    closed spec fn view(&self) -> (u64, u32) {
        (self.whole, self.frac)
    }
}

/// The number that the text `s` denotes, as a whole part and a fraction in units of
/// `10^-9` (`[+]digits[.digits]`; digits after the ninth of the fraction are dropped).
pub open spec fn ufloat_of_text(s: Seq<char>) -> Option<(u64, u32)> {
    match parse_decimal(s) {
        Some((a, b)) => Some((a as u64, b as u32)),
        None => None,
    }
}

/// The fraction of `(whole, frac)` rounded to thousandths, carried into the whole
/// part when it rounds up to one.
pub open spec fn rounded_millis(whole: u64, frac: u32) -> (nat, nat) {
    let m = (frac as nat + 500_000) / 1_000_000;
    if m >= 1000 {
        ((whole + 1) as nat, 0)
    } else {
        (whole as nat, m)
    }
}

impl UFloat {
    #[verifier::type_invariant]
    spec fn inv(self) -> bool {
        self.frac < 1_000_000_000
    }

    /// The number `whole + frac / 10^9`.
    pub fn new(whole: u64, frac: u32) -> (res: UFloat)
        requires
            frac < 1_000_000_000,
        ensures
            res@ == (whole, frac),
    {
        UFloat { whole, frac }
    }

    /// The whole part.
    pub fn whole(&self) -> (res: u64)
        ensures
            res == self@.0,
    {
        self.whole
    }

    /// The fraction, in units of `10^-9`.
    pub fn fraction_nanos(&self) -> (res: u32)
        ensures
            res == self@.1,
            res < 1_000_000_000,
    {
        proof {
            use_type_invariant(self);
        }
        self.frac
    }

    /// The text of the number (`5`, `29.97`).
    pub open spec fn spec_to_string(self) -> Seq<char> {
        decimal_text(self@.0 as nat, self@.1 as nat)
    }

    /// Appends the text of the number to `out`.
    pub fn write(&self, out: &mut Vec<char>)
        ensures
            final(out)@ == old(out)@ + self.spec_to_string(),
    {
        push_decimal(out, self.whole, self.frac);
    }

    /// The text of the number.
    pub fn to_string(&self) -> (res: String)
        ensures
            res@ == self.spec_to_string(),
    {
        let mut out = Vec::new();
        self.write(&mut out);
        string_of(&out)
    }

    /// The text of the number with exactly three digits after the point, rounded half
    /// up.
    pub open spec fn spec_to_fixed3(self) -> Seq<char> {
        let (w, m) = rounded_millis(self@.0, self@.1);
        dec(w) + seq!['.'] + fixed_digits(m, 3)
    }

    /// Appends the text of the number with three digits after the point to `out`.
    pub fn write_fixed3(&self, out: &mut Vec<char>)
        ensures
            final(out)@ == old(out)@ + self.spec_to_fixed3(),
    {
        proof {
            use_type_invariant(self);
        }
        let m = (self.frac as u64 + 500_000) / 1_000_000;
        if m >= 1000 {
            if self.whole < u64::MAX {
                push_u64(out, self.whole + 1);
            } else {
                push_u64(out, u64::MAX / 10);
                out.push('6');
                proof {
                    let n: nat = u64::MAX as nat + 1;
                    assert(n / 10 == u64::MAX / 10);
                    assert(n % 10 == 6);
                    assert(dec(n) == dec(n / 10).push(crate::text::digit_char(n % 10)));
                }
            }
            out.push('.');
            push_fixed_digits(out, 0, 3);
        } else {
            push_u64(out, self.whole);
            out.push('.');
            push_fixed_digits(out, m, 3);
        }
    }

    /// Reads a number from its text.
    pub fn parse_chars(v: &Vec<char>) -> (res: Result<UFloat, Error>)
        ensures
            res is Ok <==> ufloat_of_text(v@) is Some,
            res matches Ok(x) ==> ufloat_of_text(v@) == Some(x@),
    {
        match parse_decimal_chars(v) {
            Some((a, b)) => {
                proof {
                    crate::text::lemma_parse_decimal_range(v@);
                }
                Ok(UFloat { whole: a, frac: b })
            },
            None => Err(Error::ParseFloatError { input: string_of(v) }),
        }
    }

    /// Reads a number from its text.
    pub fn try_from(input: &str) -> (res: Result<UFloat, Error>)
        ensures
            res is Ok <==> ufloat_of_text(input@) is Some,
            res matches Ok(x) ==> ufloat_of_text(input@) == Some(x@),
    {
        Self::parse_chars(&chars_of(input))
    }
}

/// Two numbers with the same parts are equal.
pub proof fn lemma_ufloat_view(a: UFloat, b: UFloat)
    requires
        a@ == b@,
    ensures
        a == b,
{
}

impl AttrValue for UFloat {
    open spec fn spec_value(s: Seq<char>) -> Option<UFloat> {
        match ufloat_of_text(s) {
            Some(p) => Some(choose|x: UFloat| x@ == p),
            None => None,
        }
    }

    fn parse_value(v: &Vec<char>) -> (res: Result<UFloat, Error>) {
        let r = UFloat::parse_chars(v);
        proof {
            if let Ok(x) = r {
                let c = choose|y: UFloat| y@ == x@;
                lemma_ufloat_view(c, x);
            }
        }
        r
    }
}

/// Reading the text of a number gives the number back.
pub proof fn lemma_ufloat_roundtrip(x: UFloat)
    requires
        x@.1 < 1_000_000_000,
    ensures
        ufloat_of_text(x.spec_to_string()) == Some(x@),
{
    lemma_decimal_roundtrip(x@.0 as nat, x@.1 as nat);
}

/// Reading the text of a number with three digits after the point gives the number
/// back, when its fraction has no more than three digits.
pub proof fn lemma_fixed3_roundtrip(x: UFloat)
    requires
        x@.1 < 1_000_000_000,
        x@.1 % 1_000_000 == 0,
    ensures
        ufloat_of_text(x.spec_to_fixed3()) == Some(x@),
        forall|i: int|
            0 <= i < x.spec_to_fixed3().len() ==> is_digit(#[trigger] x.spec_to_fixed3()[i])
                || x.spec_to_fixed3()[i] == '.',
        x.spec_to_fixed3().len() > 0,
        is_digit(x.spec_to_fixed3()[0]),
        is_digit(x.spec_to_fixed3().last()),
{
    let (w, f) = x@;
    let m = f as nat / 1_000_000;
    assert(((f as nat + 500_000) / 1_000_000) == m);
    assert(rounded_millis(w, f) == (w as nat, m));
    let di = dec(w as nat);
    lemma_dec(w as nat);
    reveal_with_fuel(pow10, 4);
    assert(pow10(3) == 1000);
    lemma_fixed_digits(m, 3);
    let fd = fixed_digits(m, 3);
    let s = x.spec_to_fixed3();
    assert(s == di + seq!['.'] + fd);
    assert forall|j: int| 0 <= j < s.len() implies is_digit(#[trigger] s[j]) || s[j] == '.' by {
        if j < di.len() {
            assert(s[j] == di[j]);
        } else if j > di.len() {
            assert(s[j] == fd[j - di.len() - 1]);
        }
    }
    assert(s[0] == di[0]);
    assert(s.last() == fd[2]);
    assert forall|j: int| 0 <= j < di.len() implies s[j] != '.' by {
        assert(s[j] == di[j]);
        assert(is_digit(di[j]));
    }
    assert(s[di.len() as int] == '.');
    lemma_find_char_at(s, '.', di.len() as int);
    assert(unsigned_digits(s) == s);
    assert(s.take(di.len() as int) =~= di);
    assert(s.skip(di.len() as int + 1) =~= fd);
    assert(nine_digits(fd) == fd + zeros(6));
    lemma_decimal_value_zeros(fd, 6);
    reveal_with_fuel(pow10, 7);
    assert(pow10(6) == 1_000_000);
    assert(m * 1_000_000 == f as nat);
    assert(parse_decimal(s) == Some((w as nat, f as nat)));
}

/// A signed decimal number: a sign, a whole part and a fraction in units of `10^-9`.
#[derive(Debug, Clone, Copy, PartialEq, Eq, Structural, PartialOrd, Ord, Hash)]
pub struct Float {
    negative: bool,
    whole: u64,
    frac: u32,
}

impl View for Float {
    type V = (bool, u64, u32);

    /// Whether the number is below zero, its whole part and its fraction in units of
    /// `10^-9`.
    closed spec fn view(&self) -> (bool, u64, u32) {
        (self.negative, self.whole, self.frac)
    }
}

/// The signed number that the text `s` denotes: an optional `-`, then a number as
/// [`ufloat_of_text`] reads it (without a further sign). Zero is never negative.
pub open spec fn float_of_text(s: Seq<char>) -> Option<(bool, u64, u32)> {
    if s.len() > 0 && s[0] == '-' {
        let body = s.drop_first();
        if body.len() > 0 && body[0] == '+' {
            None
        } else {
            match ufloat_of_text(body) {
                Some((a, b)) => Some((a != 0 || b != 0, a, b)),
                None => None,
            }
        }
    } else {
        match ufloat_of_text(s) {
            Some((a, b)) => Some((false, a, b)),
            None => None,
        }
    }
}

impl Float {
    #[verifier::type_invariant]
    spec fn inv(self) -> bool {
        &&& self.frac < 1_000_000_000
        &&& (self.negative ==> self.whole != 0 || self.frac != 0)
    }

    /// The number `±(whole + frac / 10^9)`; zero is never negative.
    pub fn new(negative: bool, whole: u64, frac: u32) -> (res: Float)
        requires
            frac < 1_000_000_000,
        ensures
            res@ == (negative && (whole != 0 || frac != 0), whole, frac),
    {
        Float { negative: negative && (whole != 0 || frac != 0), whole, frac }
    }

    /// Whether the number is below zero.
    pub fn is_negative(&self) -> (res: bool)
        ensures
            res == self@.0,
    {
        self.negative
    }

    /// The whole part of the magnitude.
    pub fn whole(&self) -> (res: u64)
        ensures
            res == self@.1,
    {
        self.whole
    }

    /// The fraction of the magnitude, in units of `10^-9`.
    pub fn fraction_nanos(&self) -> (res: u32)
        ensures
            res == self@.2,
            res < 1_000_000_000,
    {
        proof {
            use_type_invariant(self);
        }
        self.frac
    }

    /// The text of the number (`-1.23`, `45.3`).
    pub open spec fn spec_to_string(self) -> Seq<char> {
        if self@.0 {
            seq!['-'] + decimal_text(self@.1 as nat, self@.2 as nat)
        } else {
            decimal_text(self@.1 as nat, self@.2 as nat)
        }
    }

    /// Appends the text of the number to `out`.
    pub fn write(&self, out: &mut Vec<char>)
        ensures
            final(out)@ == old(out)@ + self.spec_to_string(),
    {
        if self.negative {
            out.push('-');
        }
        push_decimal(out, self.whole, self.frac);
    }

    /// The text of the number.
    pub fn to_string(&self) -> (res: String)
        ensures
            res@ == self.spec_to_string(),
    {
        let mut out = Vec::new();
        self.write(&mut out);
        string_of(&out)
    }

    /// Reads a number from its text.
    pub fn parse_chars(v: &Vec<char>) -> (res: Result<Float, Error>)
        ensures
            res is Ok <==> float_of_text(v@) is Some,
            res matches Ok(x) ==> float_of_text(v@) == Some(x@),
    {
        if v.len() > 0 && v[0] == '-' {
            if v.len() > 1 && v[1] == '+' {
                return Err(Error::ParseFloatError { input: string_of(v) });
            }
            let body = slice_of(v, 1, v.len());
            assert(body@ == v@.drop_first());
            match parse_decimal_chars(&body) {
                Some((a, b)) => {
                    proof {
                        crate::text::lemma_parse_decimal_range(body@);
                    }
                    Ok(Float { negative: a != 0 || b != 0, whole: a, frac: b })
                },
                None => Err(Error::ParseFloatError { input: string_of(v) }),
            }
        } else {
            match parse_decimal_chars(v) {
                Some((a, b)) => {
                    proof {
                        crate::text::lemma_parse_decimal_range(v@);
                    }
                    Ok(Float { negative: false, whole: a, frac: b })
                },
                None => Err(Error::ParseFloatError { input: string_of(v) }),
            }
        }
    }

    /// Reads a number from its text.
    pub fn try_from(input: &str) -> (res: Result<Float, Error>)
        ensures
            res is Ok <==> float_of_text(input@) is Some,
            res matches Ok(x) ==> float_of_text(input@) == Some(x@),
    {
        Self::parse_chars(&chars_of(input))
    }
}

/// Two numbers with the same parts are equal.
pub proof fn lemma_float_view(a: Float, b: Float)
    requires
        a@ == b@,
    ensures
        a == b,
{
}

impl AttrValue for Float {
    open spec fn spec_value(s: Seq<char>) -> Option<Float> {
        match float_of_text(s) {
            Some(p) => Some(choose|x: Float| x@ == p),
            None => None,
        }
    }

    fn parse_value(v: &Vec<char>) -> (res: Result<Float, Error>) {
        let r = Float::parse_chars(v);
        proof {
            if let Ok(x) = r {
                let c = choose|y: Float| y@ == x@;
                lemma_float_view(c, x);
            }
        }
        r
    }
}

/// Reading the text of a number gives the number back.
pub proof fn lemma_float_roundtrip(x: Float)
    requires
        x@.2 < 1_000_000_000,
        x@.0 ==> x@.1 != 0 || x@.2 != 0,
    ensures
        float_of_text(x.spec_to_string()) == Some(x@),
{
    let (neg, w, f) = x@;
    lemma_decimal_roundtrip(w as nat, f as nat);
    let t = decimal_text(w as nat, f as nat);
    crate::text::lemma_dec(w as nat);
    assert(t[0] == dec(w as nat)[0]);
    crate::text::lemma_digit_char(0);
    assert(crate::text::is_digit(dec(w as nat)[0]));
    if neg {
        let s = x.spec_to_string();
        assert(s.drop_first() == t);
    }
}

} // verus!
