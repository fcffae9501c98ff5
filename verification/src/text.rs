//! Character-level helpers shared by all parsers and writers.
//!
//! Every parser of this crate works on the characters of one line, held in a
//! `Vec<char>`, and every writer appends characters to a `Vec<char>`.
use vstd::prelude::*;

use crate::error::Error;

verus! {

/// Copies the characters of `s` into a vector.
pub fn chars_of(s: &str) -> (res: Vec<char>)
    ensures
        res@ == s@,
{
    let mut res: Vec<char> = Vec::new();
    for c in it: s.chars()
        invariant
            res@ == it.seq().take(it.index() as int),
            it.seq() == s@,
    {
        res.push(c);
    }
    res
}

/// Appends one character to a `String` (`String::push`).
#[verifier::external_body]
fn push_char(s: &mut String, c: char)
    ensures
        final(s)@ == old(s)@.push(c),
{
    s.push(c);
}

/// Builds a `String` that holds exactly the characters of `v`.
pub fn string_of(v: &Vec<char>) -> (res: String)
    ensures
        res@ == v@,
{
    let mut res = String::new();
    let mut i: usize = 0;
    while i < v.len()
        invariant
            i <= v.len(),
            res@ == v@.take(i as int),
        decreases v.len() - i,
    {
        push_char(&mut res, v[i]);
        assert(v@.take(i + 1) == v@.take(i as int).push(v@[i as int]));
        i = i + 1;
    }
    assert(v@.take(v.len() as int) == v@);
    res
}

/// Appends the characters of `s` to `out`.
pub fn push_str(out: &mut Vec<char>, s: &str)
    ensures
        final(out)@ == old(out)@ + s@,
{
    let ghost start = out@;
    for c in it: s.chars()
        invariant
            out@ == start + it.seq().take(it.index() as int),
            it.seq() == s@,
    {
        out.push(c);
        assert(start + it.seq().take(it.index() + 1) == (start + it.seq().take(it.index() as int)).push(c));
    }
    assert(s@.take(s@.len() as int) == s@);
}

/// Appends the characters of `s` to `out`.
pub fn push_string(out: &mut Vec<char>, s: &String)
    ensures
        final(out)@ == old(out)@ + s@,
{
    push_str(out, s.as_str());
}

/// Appends the characters of `v` to `out`.
pub fn push_chars(out: &mut Vec<char>, v: &Vec<char>)
    ensures
        final(out)@ == old(out)@ + v@,
{
    let ghost start = out@;
    let mut i: usize = 0;
    while i < v.len()
        invariant
            i <= v.len(),
            out@ == start + v@.take(i as int),
        decreases v.len() - i,
    {
        out.push(v[i]);
        assert(v@.take(i + 1) == v@.take(i as int).push(v@[i as int]));
        i = i + 1;
    }
    assert(v@.take(v.len() as int) == v@);
}

/// `s` begins with `p`.
pub open spec fn starts_with(s: Seq<char>, p: Seq<char>) -> bool {
    p.len() <= s.len() && s.take(p.len() as int) == p
}

/// Whether `v` begins with the characters of `p`.
pub fn has_prefix(v: &Vec<char>, p: &str) -> (res: bool)
    ensures
        res == starts_with(v@, p@),
{
    let pv = chars_of(p);
    if pv.len() > v.len() {
        return false;
    }
    let mut i: usize = 0;
    while i < pv.len()
        invariant
            pv@ == p@,
            pv.len() <= v.len(),
            i <= pv.len(),
            forall|j: int| 0 <= j < i ==> v@[j] == pv@[j],
        decreases pv.len() - i,
    {
        if v[i] != pv[i] {
            assert(v@.take(pv.len() as int)[i as int] != pv@[i as int]);
            return false;
        }
        i = i + 1;
    }
    assert(v@.take(pv.len() as int) =~= pv@);
    true
}

/// Whether the characters of `v` are exactly those of `p`.
pub fn equals_str(v: &Vec<char>, p: &str) -> (res: bool)
    ensures
        res == (v@ == p@),
{
    let pv = chars_of(p);
    if pv.len() != v.len() {
        return false;
    }
    let mut i: usize = 0;
    while i < pv.len()
        invariant
            pv@ == p@,
            pv.len() == v.len(),
            i <= pv.len(),
            forall|j: int| 0 <= j < i ==> v@[j] == pv@[j],
        decreases pv.len() - i,
    {
        if v[i] != pv[i] {
            return false;
        }
        i = i + 1;
    }
    assert(v@ =~= pv@);
    true
}

/// Whether `a` and `b` hold the same characters.
pub fn equals_chars(a: &Vec<char>, b: &Vec<char>) -> (res: bool)
    ensures
        res == (a@ == b@),
{
    if a.len() != b.len() {
        return false;
    }
    let mut i: usize = 0;
    while i < a.len()
        invariant
            a.len() == b.len(),
            i <= a.len(),
            forall|j: int| 0 <= j < i ==> a@[j] == b@[j],
        decreases a.len() - i,
    {
        if a[i] != b[i] {
            return false;
        }
        i = i + 1;
    }
    assert(a@ =~= b@);
    true
}

/// The characters of `v` from `start` (inclusive) to `end` (exclusive).
pub fn slice_of(v: &Vec<char>, start: usize, end: usize) -> (res: Vec<char>)
    requires
        start <= end <= v.len(),
    ensures
        res@ == v@.subrange(start as int, end as int),
{
    let mut res: Vec<char> = Vec::new();
    let mut i: usize = start;
    while i < end
        invariant
            start <= i <= end <= v.len(),
            res@ == v@.subrange(start as int, i as int),
        decreases end - i,
    {
        res.push(v[i]);
        assert(v@.subrange(start as int, i + 1) == v@.subrange(start as int, i as int).push(v@[i as int]));
        i = i + 1;
    }
    res
}


/// Unicode white space, as `char::is_whitespace` classifies it.
pub open spec fn is_ws(c: char) -> bool {
    ||| ('\u{9}' <= c && c <= '\u{d}')
    ||| c == ' '
    ||| c == '\u{85}'
    ||| c == '\u{a0}'
    ||| c == '\u{1680}'
    ||| ('\u{2000}' <= c && c <= '\u{200a}')
    ||| c == '\u{2028}'
    ||| c == '\u{2029}'
    ||| c == '\u{202f}'
    ||| c == '\u{205f}'
    ||| c == '\u{3000}'
}

/// Whether `c` is white space.
pub fn is_whitespace(c: char) -> (res: bool)
    ensures
        res == is_ws(c),
{
    ('\u{9}' <= c && c <= '\u{d}') || c == ' ' || c == '\u{85}' || c == '\u{a0}' || c == '\u{1680}'
        || ('\u{2000}' <= c && c <= '\u{200a}') || c == '\u{2028}' || c == '\u{2029}' || c
        == '\u{202f}' || c == '\u{205f}' || c == '\u{3000}'
}

/// `s` without its leading white space.
pub open spec fn trim_start(s: Seq<char>) -> Seq<char>
    decreases s.len(),
{
    if s.len() > 0 && is_ws(s[0]) {
        trim_start(s.drop_first())
    } else {
        s
    }
}

/// `s` without its trailing white space.
pub open spec fn trim_end(s: Seq<char>) -> Seq<char>
    decreases s.len(),
{
    if s.len() > 0 && is_ws(s.last()) {
        trim_end(s.drop_last())
    } else {
        s
    }
}

/// `s` without leading and trailing white space (`str::trim`).
pub open spec fn trim(s: Seq<char>) -> Seq<char> {
    trim_end(trim_start(s))
}

proof fn lemma_trim_start_skip(s: Seq<char>, i: int)
    requires
        0 <= i <= s.len(),
        forall|j: int| 0 <= j < i ==> is_ws(s[j]),
    ensures
        trim_start(s) == trim_start(s.subrange(i, s.len() as int)),
    decreases i,
{
    if i > 0 {
        assert(s.drop_first() == s.subrange(1, s.len() as int));
        lemma_trim_start_skip(s.drop_first(), i - 1);
        assert(s.drop_first().subrange(i - 1, s.drop_first().len() as int) == s.subrange(
            i,
            s.len() as int,
        ));
    } else {
        assert(s.subrange(0, s.len() as int) == s);
    }
}

proof fn lemma_trim_end_skip(s: Seq<char>, k: int)
    requires
        0 <= k <= s.len(),
        forall|j: int| k <= j < s.len() ==> is_ws(s[j]),
    ensures
        trim_end(s) == trim_end(s.subrange(0, k)),
    decreases s.len() - k,
{
    if k < s.len() {
        lemma_trim_end_skip(s.drop_last(), k);
        assert(s.drop_last().subrange(0, k) == s.subrange(0, k));
    } else {
        assert(s.subrange(0, k) == s);
    }
}

/// The characters of `v` between `start` and `end`, without surrounding white space.
pub fn trimmed(v: &Vec<char>, start: usize, end: usize) -> (res: Vec<char>)
    requires
        start <= end <= v.len(),
    ensures
        res@ == trim(v@.subrange(start as int, end as int)),
{
    let ghost s = v@.subrange(start as int, end as int);
    let mut i = start;
    while i < end && is_whitespace(v[i])
        invariant
            start <= i <= end <= v.len(),
            forall|j: int| start <= j < i ==> is_ws(v@[j]),
        decreases end - i,
    {
        i = i + 1;
    }
    proof {
        lemma_trim_start_skip(s, i - start);
        assert(s.subrange(i - start, s.len() as int) == v@.subrange(i as int, end as int));
    }
    let ghost t = v@.subrange(i as int, end as int);
    assert(t.len() == 0 || !is_ws(t[0]));
    assert(trim_start(s) == t);
    let mut k = end;
    while k > i && is_whitespace(v[k - 1])
        invariant
            i <= k <= end,
            end <= v.len(),
            forall|j: int| k <= j < end ==> is_ws(v@[j]),
        decreases k - i,
    {
        k = k - 1;
    }
    proof {
        lemma_trim_end_skip(t, k - i);
        assert(t.subrange(0, k - i) == v@.subrange(i as int, k as int));
    }
    slice_of(v, i, k)
}

/// `s` after removing every `"`, line feed and carriage return.
pub open spec fn strip_quotes(s: Seq<char>) -> Seq<char>
    decreases s.len(),
{
    if s.len() == 0 {
        s
    } else {
        let r = strip_quotes(s.drop_last());
        if s.last() == '"' || s.last() == '\n' || s.last() == '\r' {
            r
        } else {
            r.push(s.last())
        }
    }
}

/// An optional text that holds no double quote, line feed or carriage return.
pub open spec fn plain_opt(v: Option<Seq<char>>) -> bool {
    v matches Some(x) ==> strip_quotes(x) == x
}

/// `s` holds no line feed.
pub open spec fn no_lf(s: Seq<char>) -> bool {
    forall|i: int| 0 <= i < s.len() ==> s[i] != '\n'
}

/// The last three digits of a number are digits.
pub proof fn lemma_fixed_digits_bound(m: nat)
    ensures
        forall|i: int| 0 <= i < fixed_digits(m, 3).len() ==> is_digit(#[trigger] fixed_digits(m, 3)[i]),
{
    reveal_with_fuel(fixed_digits, 4);
    let a = m / 10;
    let b = a / 10;
    lemma_digit_char(m % 10);
    lemma_digit_char(a % 10);
    lemma_digit_char(b % 10);
    assert(fixed_digits(m, 3) =~= seq![digit_char(b % 10), digit_char(a % 10), digit_char(m % 10)]);
}

/// Two texts without line feeds make one without line feeds.
pub proof fn lemma_no_lf_concat(a: Seq<char>, b: Seq<char>)
    requires
        no_lf(a),
        no_lf(b),
    ensures
        no_lf(a + b),
{
    assert forall|i: int| 0 <= i < (a + b).len() implies (a + b)[i] != '\n' by {
        if i < a.len() {
            assert((a + b)[i] == a[i]);
        } else {
            assert((a + b)[i] == b[i - a.len()]);
        }
    }
}

/// A quoted text holds no line feed.
pub proof fn lemma_quoted_no_lf(x: Seq<char>)
    ensures
        no_lf(quoted(x)),
{
    lemma_strip_quotes_plain(x);
    let q = quoted(x);
    let c = strip_quotes(x);
    assert forall|i: int| 0 <= i < q.len() implies q[i] != '\n' by {
        if 0 < i < q.len() - 1 {
            assert(q[i] == c[i - 1]);
        }
    }
}

/// Decimal digits hold no line feed.
pub proof fn lemma_digits_no_lf(s: Seq<char>)
    requires
        forall|i: int| 0 <= i < s.len() ==> is_digit(#[trigger] s[i]) || s[i] == '.' || s[i]
            == 'x',
    ensures
        no_lf(s),
{
    assert forall|i: int| 0 <= i < s.len() implies s[i] != '\n' by {
        assert(is_digit(s[i]) || s[i] == '.' || s[i] == 'x');
    }
}

/// `strip_quotes` leaves no double quote, line feed or carriage return.
pub proof fn lemma_strip_quotes_plain(s: Seq<char>)
    ensures
        forall|i: int|
            0 <= i < strip_quotes(s).len() ==> #[trigger] strip_quotes(s)[i] != '"'
                && strip_quotes(s)[i] != '\n' && strip_quotes(s)[i] != '\r',
    decreases s.len(),
{
    if s.len() > 0 {
        lemma_strip_quotes_plain(s.drop_last());
        let r = strip_quotes(s.drop_last());
        if !(s.last() == '"' || s.last() == '\n' || s.last() == '\r') {
            assert forall|i: int| 0 <= i < r.len() implies #[trigger] r.push(s.last())[i] == r[i] by {}
        }
    }
}

/// Removing quotes from text without quotes, line feeds or carriage returns keeps it.
pub proof fn lemma_strip_quotes_id(t: Seq<char>)
    requires
        forall|i: int| 0 <= i < t.len() ==> t[i] != '"' && t[i] != '\n' && t[i] != '\r',
    ensures
        strip_quotes(t) == t,
    decreases t.len(),
{
    if t.len() > 0 {
        lemma_strip_quotes_id(t.drop_last());
        assert(t.drop_last().push(t.last()) == t);
    }
}

/// `strip_quotes` of a concatenation is the concatenation of `strip_quotes`.
pub proof fn lemma_strip_quotes_concat(a: Seq<char>, b: Seq<char>)
    ensures
        strip_quotes(a + b) == strip_quotes(a) + strip_quotes(b),
    decreases b.len(),
{
    if b.len() == 0 {
        assert(a + b == a);
        assert(strip_quotes(a) + strip_quotes(b) == strip_quotes(a));
    } else {
        lemma_strip_quotes_concat(a, b.drop_last());
        assert((a + b).drop_last() == a + b.drop_last());
        assert((a + b).last() == b.last());
    }
}

/// Removing the quotes of a quoted text gives the text without its quotes.
pub proof fn lemma_strip_quoted(x: Seq<char>)
    ensures
        strip_quotes(quoted(x)) == strip_quotes(x),
{
    let q = seq!['"'];
    let c = strip_quotes(x);
    lemma_strip_quotes_plain(x);
    lemma_strip_quotes_id(c);
    assert(strip_quotes(q) == Seq::<char>::empty()) by {
        assert(q.drop_last() =~= Seq::<char>::empty());
        assert(strip_quotes(q.drop_last()) =~= Seq::<char>::empty());
    }
    lemma_strip_quotes_concat(q + c, q);
    lemma_strip_quotes_concat(q, c);
    assert(quoted(x) == q + c + q);
    assert(strip_quotes(quoted(x)) =~= c);
}

/// Removes every `"`, line feed and carriage return from `v`.
pub fn unquote(v: &Vec<char>) -> (res: Vec<char>)
    ensures
        res@ == strip_quotes(v@),
{
    let mut res: Vec<char> = Vec::new();
    let mut i: usize = 0;
    while i < v.len()
        invariant
            i <= v.len(),
            res@ == strip_quotes(v@.take(i as int)),
        decreases v.len() - i,
    {
        let c = v[i];
        assert(v@.take(i + 1).drop_last() == v@.take(i as int));
        if c != '"' && c != '\n' && c != '\r' {
            res.push(c);
        }
        i = i + 1;
    }
    assert(v@.take(v.len() as int) == v@);
    res
}

/// `s` between double quotes, after removing the characters that a quoted string must
/// not hold.
pub open spec fn quoted(s: Seq<char>) -> Seq<char> {
    seq!['"'] + strip_quotes(s) + seq!['"']
}

/// Appends `quoted(s)` to `out`.
pub fn push_quoted(out: &mut Vec<char>, s: &Vec<char>)
    ensures
        final(out)@ == old(out)@ + quoted(s@),
{
    out.push('"');
    let u = unquote(s);
    push_chars(out, &u);
    out.push('"');
}

/// Appends `quoted(s)` to `out`.
pub fn push_quoted_string(out: &mut Vec<char>, s: &String)
    ensures
        final(out)@ == old(out)@ + quoted(s@),
{
    let v = chars_of(s.as_str());
    push_quoted(out, &v);
}

/// Whether `c` is an ASCII decimal digit.
pub open spec fn is_digit(c: char) -> bool {
    '0' <= c && c <= '9'
}

/// The value of an ASCII decimal digit.
pub open spec fn digit_value(c: char) -> nat {
    (c as int - '0' as int) as nat
}

/// The character of the decimal digit `d`.
pub open spec fn digit_char(d: nat) -> char {
    (d + '0' as int) as char
}

/// Every character of `s` is a decimal digit.
pub open spec fn all_digits(s: Seq<char>) -> bool {
    forall|i: int| 0 <= i < s.len() ==> #[trigger] is_digit(s[i])
}

/// The number that the decimal digits `s` denote.
pub open spec fn decimal_value(s: Seq<char>) -> nat
    decreases s.len(),
{
    if s.len() == 0 {
        0
    } else {
        decimal_value(s.drop_last()) * 10 + digit_value(s.last())
    }
}

/// `s` without one leading `+`, as Rust's integer parser accepts it.
pub open spec fn unsigned_digits(s: Seq<char>) -> Seq<char> {
    if s.len() > 0 && s[0] == '+' {
        s.drop_first()
    } else {
        s
    }
}

/// The unsigned integer that `s` denotes, if it fits in `max` (`str::parse::<u64>`).
pub open spec fn parse_unsigned(s: Seq<char>, max: nat) -> Option<nat> {
    let d = unsigned_digits(s);
    if d.len() > 0 && all_digits(d) && decimal_value(d) <= max {
        Some(decimal_value(d))
    } else {
        None
    }
}

proof fn lemma_decimal_value_bound(s: Seq<char>, t: Seq<char>)
    requires
        all_digits(s + t),
    ensures
        decimal_value(s + t) >= decimal_value(s),
    decreases t.len(),
{
    if t.len() > 0 {
        assert((s + t).drop_last() == s + t.drop_last());
        assert(all_digits(s + t.drop_last())) by {
            assert forall|i: int| 0 <= i < (s + t.drop_last()).len() implies #[trigger] is_digit(
                (s + t.drop_last())[i],
            ) by {
                assert((s + t.drop_last())[i] == (s + t)[i]);
            }
        }
        lemma_decimal_value_bound(s, t.drop_last());
    } else {
        assert(s + t == s);
    }
}

/// Parses an unsigned decimal integer no larger than `max`.
pub fn parse_unsigned_int(v: &Vec<char>, max: u64) -> (res: Option<u64>)
    ensures
        res == (match parse_unsigned(v@, max as nat) {
            Some(n) => Some(n as u64),
            None => None::<u64>,
        }),
{
    let mut i: usize = 0;
    if v.len() > 0 && v[0] == '+' {
        i = 1;
    }
    let ghost d = unsigned_digits(v@);
    assert(d == v@.subrange(i as int, v.len() as int));
    if i >= v.len() {
        return None;
    }
    let mut n: u64 = 0;
    let start = i;
    while i < v.len()
        invariant
            start <= i <= v.len(),
            d == unsigned_digits(v@),
            d == v@.subrange(start as int, v.len() as int),
            all_digits(v@.subrange(start as int, i as int)),
            n == decimal_value(v@.subrange(start as int, i as int)),
            n <= max,
        decreases v.len() - i,
    {
        let c = v[i];
        let ghost prefix = v@.subrange(start as int, i as int);
        let ghost next = v@.subrange(start as int, i + 1);
        assert(next.drop_last() == prefix);
        if !('0' <= c && c <= '9') {
            assert(d[i - start] == c);
            assert(!is_digit(d[i - start]));
            assert(!all_digits(d));
            return None;
        }
        assert(all_digits(next)) by {
            assert forall|j: int| 0 <= j < next.len() implies #[trigger] is_digit(next[j]) by {
                if j < prefix.len() {
                    assert(next[j] == prefix[j]);
                }
            }
        }
        let dv = (c as u32 - '0' as u32) as u64;
        assert(decimal_value(next) == n * 10 + dv);
        if dv > max || n > (max - dv) / 10 {
            proof {
                assert(decimal_value(next) > max) by (nonlinear_arith)
                    requires
                        dv > max || n > (max - dv) / 10,
                        decimal_value(next) == n * 10 + dv,
                        0 <= dv <= 9,
                        n >= 0,
                ;
                let rest = v@.subrange(i + 1, v.len() as int);
                assert(d == next + rest);
                if all_digits(d) {
                    lemma_decimal_value_bound(next, rest);
                    assert(decimal_value(d) > max);
                }
                assert(parse_unsigned(v@, max as nat) is None);
            }
            return None;
        }
        assert(n * 10 + dv <= max) by (nonlinear_arith)
            requires
                dv <= max,
                n <= (max - dv) / 10,
        ;
        n = n * 10 + dv;
        i = i + 1;
    }
    assert(v@.subrange(start as int, v.len() as int) == d);
    Some(n)
}

/// The decimal representation of `n`, without leading zeros.
pub open spec fn dec(n: nat) -> Seq<char>
    decreases n,
{
    if n < 10 {
        seq![digit_char(n)]
    } else {
        dec(n / 10).push(digit_char(n % 10))
    }
}

/// Appends the decimal representation of `n` to `out`.
pub fn push_u64(out: &mut Vec<char>, n: u64)
    ensures
        final(out)@ == old(out)@ + dec(n as nat),
    decreases n,
{
    if n >= 10 {
        push_u64(out, n / 10);
    }
    let d = (n % 10) as u8;
    let c = (48u8 + d) as char;
    out.push(c);
}


/// What follows the tag `p` in `s` once white space is trimmed from `s`, if `s` starts
/// with it.
pub open spec fn after_tag(s: Seq<char>, p: Seq<char>) -> Option<Seq<char>> {
    if starts_with(trim(s), p) {
        Some(trim(s).skip(p.len() as int))
    } else {
        None
    }
}

/// Strips the tag `p` from the trimmed line `v`.
pub fn strip_tag(v: &Vec<char>, p: &str) -> (res: Option<Vec<char>>)
    ensures
        res matches Some(r) ==> after_tag(v@, p@) == Some(r@),
        res is None ==> after_tag(v@, p@) is None,
{
    let t = trimmed(v, 0, v.len());
    assert(v@.subrange(0, v@.len() as int) == v@);
    if has_prefix(&t, p) {
        let pl = chars_of(p).len();
        Some(slice_of(&t, pl, t.len()))
    } else {
        None
    }
}

/// Appends a `,` and `key=` to `out`.
pub fn push_key(out: &mut Vec<char>, key: &str)
    ensures
        final(out)@ == old(out)@ + seq![','] + key@ + seq!['='],
{
    out.push(',');
    push_str(out, key);
    out.push('=');
}


/// `10` to the power `k`.
pub open spec fn pow10(k: nat) -> nat
    decreases k,
{
    if k == 0 {
        1
    } else {
        10 * pow10((k - 1) as nat)
    }
}

/// The last `k` decimal digits of `n`, with leading zeros.
pub open spec fn fixed_digits(n: nat, k: nat) -> Seq<char>
    decreases k,
{
    if k == 0 {
        seq![]
    } else {
        fixed_digits(n / 10, (k - 1) as nat).push(digit_char(n % 10))
    }
}

/// `s` without its trailing `0`s.
pub open spec fn trim_zeros(s: Seq<char>) -> Seq<char>
    decreases s.len(),
{
    if s.len() > 0 && s.last() == '0' {
        trim_zeros(s.drop_last())
    } else {
        s
    }
}

/// The digits `f` of a decimal fraction, cut or padded with `0`s to nine digits.
pub open spec fn nine_digits(f: Seq<char>) -> Seq<char> {
    if f.len() >= 9 {
        f.take(9)
    } else {
        f + Seq::new((9 - f.len()) as nat, |i: int| '0')
    }
}

pub proof fn lemma_fixed_digits(n: nat, k: nat)
    requires
        n < pow10(k),
    ensures
        fixed_digits(n, k).len() == k,
        all_digits(fixed_digits(n, k)),
        decimal_value(fixed_digits(n, k)) == n,
    decreases k,
{
    if k > 0 {
        assert(n / 10 < pow10((k - 1) as nat)) by (nonlinear_arith)
            requires
                n < pow10(k),
                pow10(k) == 10 * pow10((k - 1) as nat),
        ;
        lemma_fixed_digits(n / 10, (k - 1) as nat);
        let s = fixed_digits(n, k);
        assert(s.drop_last() == fixed_digits(n / 10, (k - 1) as nat));
        assert(all_digits(s)) by {
            assert forall|i: int| 0 <= i < s.len() implies #[trigger] is_digit(s[i]) by {
                if i < s.len() - 1 {
                    assert(s[i] == s.drop_last()[i]);
                }
            }
        }
        assert(n == (n / 10) * 10 + n % 10) by (nonlinear_arith);
    } else {
        assert(n == 0);
    }
}

pub proof fn lemma_digit_char(d: nat)
    requires
        d < 10,
    ensures
        is_digit(digit_char(d)),
        digit_value(digit_char(d)) == d,
        digit_char(d) != '+',
        digit_char(d) != '.',
{
}

pub proof fn lemma_dec(n: nat)
    ensures
        dec(n).len() > 0,
        all_digits(dec(n)),
        decimal_value(dec(n)) == n,
        dec(n)[0] != '+',
    decreases n,
{
    lemma_digit_char(n % 10);
    let s = dec(n);
    if n >= 10 {
        lemma_dec(n / 10);
        assert(s.drop_last() == dec(n / 10));
        assert(s.last() == digit_char(n % 10));
        assert(all_digits(s)) by {
            assert forall|i: int| 0 <= i < s.len() implies #[trigger] is_digit(s[i]) by {
                if i < s.len() - 1 {
                    assert(s[i] == s.drop_last()[i]);
                }
            }
        }
        assert(s[0] == dec(n / 10)[0]);
        assert(decimal_value(s) == decimal_value(s.drop_last()) * 10 + digit_value(s.last()));
        assert(n == (n / 10) * 10 + n % 10) by (nonlinear_arith);
    } else {
        assert(n % 10 == n);
        assert(s.drop_last() =~= Seq::<char>::empty());
        assert(decimal_value(s) == decimal_value(s.drop_last()) * 10 + digit_value(s.last()));
    }
}

/// Appends `fixed_digits(n, k)` to `out`.
pub fn push_fixed_digits(out: &mut Vec<char>, n: u64, k: u64)
    ensures
        final(out)@ == old(out)@ + fixed_digits(n as nat, k as nat),
    decreases k,
{
    if k > 0 {
        push_fixed_digits(out, n / 10, k - 1);
        let d = (n % 10) as u8;
        let c = (48u8 + d) as char;
        out.push(c);
    }
}

/// Removes the trailing `0`s of `v`.
pub fn drop_trailing_zeros(v: &mut Vec<char>)
    ensures
        final(v)@ == trim_zeros(old(v)@),
{
    while v.len() > 0 && v[v.len() - 1] == '0'
        invariant
            trim_zeros(v@) == trim_zeros(old(v)@),
        decreases v.len(),
    {
        v.pop();
    }
}


/// The index of the first `c` in `s`, if there is one.
pub open spec fn find_char(s: Seq<char>, c: char) -> Option<int>
    decreases s.len(),
{
    if s.len() == 0 {
        None
    } else if s[0] == c {
        Some(0)
    } else {
        match find_char(s.drop_first(), c) {
            Some(i) => Some(i + 1),
            None => None,
        }
    }
}

pub proof fn lemma_find_char(s: Seq<char>, c: char)
    ensures
        find_char(s, c) matches Some(k) ==> 0 <= k < s.len() && s[k] == c && forall|j: int|
            0 <= j < k ==> s[j] != c,
        find_char(s, c) is None ==> forall|j: int| 0 <= j < s.len() ==> s[j] != c,
    decreases s.len(),
{
    if s.len() > 0 {
        lemma_find_char(s.drop_first(), c);
        if s[0] != c {
            assert forall|j: int| 1 <= j < s.len() implies s[j] == s.drop_first()[j - 1] by {}
        }
    }
}

/// The first `k` with `s[k] == c` is the index that `find_char` gives.
pub proof fn lemma_find_char_at(s: Seq<char>, c: char, k: int)
    requires
        0 <= k < s.len(),
        s[k] == c,
        forall|j: int| 0 <= j < k ==> s[j] != c,
    ensures
        find_char(s, c) == Some(k),
{
    lemma_find_char(s, c);
    if find_char(s, c) is None {
        assert(s[k] != c);
    }
}

/// The index of the first `c` in `v` between `start` and `end`, relative to `start`.
pub fn position(v: &Vec<char>, start: usize, end: usize, c: char) -> (res: Option<usize>)
    requires
        start <= end <= v.len(),
    ensures
        res matches Some(k) ==> find_char(v@.subrange(start as int, end as int), c) == Some(
            k as int,
        ),
        res is None ==> find_char(v@.subrange(start as int, end as int), c) is None,
{
    let ghost s = v@.subrange(start as int, end as int);
    let mut i = start;
    while i < end
        invariant
            start <= i <= end <= v.len(),
            s == v@.subrange(start as int, end as int),
            forall|j: int| 0 <= j < i - start ==> s[j] != c,
        decreases end - i,
    {
        if v[i] == c {
            proof {
                lemma_find_char_at(s, c, i - start);
            }
            return Some(i - start);
        }
        i = i + 1;
    }
    proof {
        lemma_find_char(s, c);
        if let Some(k) = find_char(s, c) {
            assert(s[k] != c);
        }
    }
    None
}


pub proof fn lemma_pow10_9()
    ensures
        pow10(9) == 1_000_000_000,
{
    reveal_with_fuel(pow10, 10);
}

/// `k` zeros.
pub open spec fn zeros(k: nat) -> Seq<char> {
    Seq::new(k, |i: int| '0')
}

/// The integer part and the fraction, in units of `10^-9`, of the decimal number `s`
/// (`[+]digits[.digits]`, at least one digit). Digits of the fraction after the ninth
/// are ignored.
pub open spec fn parse_decimal(s: Seq<char>) -> Option<(nat, nat)> {
    let d = unsigned_digits(s);
    let ip = match find_char(d, '.') {
        Some(k) => d.take(k),
        None => d,
    };
    let fp = match find_char(d, '.') {
        Some(k) => d.skip(k + 1),
        None => seq![],
    };
    if ip.len() + fp.len() > 0 && all_digits(ip) && all_digits(fp) && decimal_value(ip)
        <= u64::MAX {
        Some((decimal_value(ip), decimal_value(nine_digits(fp))))
    } else {
        None
    }
}

/// The text of the decimal number `whole.frac`, where `frac` is in units of `10^-9`:
/// trailing zeros of the fraction are left out, and so is the point if the fraction is 0.
pub open spec fn decimal_text(whole: nat, frac: nat) -> Seq<char> {
    if frac == 0 {
        dec(whole)
    } else {
        dec(whole) + seq!['.'] + trim_zeros(fixed_digits(frac, 9))
    }
}

pub proof fn lemma_decimal_value_zeros(s: Seq<char>, k: nat)
    ensures
        decimal_value(s + zeros(k)) == decimal_value(s) * pow10(k),
    decreases k,
{
    if k == 0 {
        assert(s + zeros(0) =~= s);
        assert(pow10(0) == 1);
    } else {
        assert(pow10(k) == 10 * pow10((k - 1) as nat));
        lemma_decimal_value_zeros(s, (k - 1) as nat);
        let t = s + zeros(k);
        assert(t.drop_last() =~= s + zeros((k - 1) as nat));
        assert(t.last() == '0');
        assert(digit_value('0') == 0);
        assert(decimal_value(t) == decimal_value(t.drop_last()) * 10 + digit_value(t.last()));
        assert(decimal_value(s) * pow10((k - 1) as nat) * 10 == decimal_value(s) * pow10(k))
            by (nonlinear_arith)
            requires
                pow10(k) == 10 * pow10((k - 1) as nat),
        ;
    }
}

pub proof fn lemma_all_digits_prefix(s: Seq<char>, k: int)
    requires
        all_digits(s),
        0 <= k <= s.len(),
    ensures
        all_digits(s.take(k)),
{
    assert forall|i: int| 0 <= i < k implies #[trigger] is_digit(s.take(k)[i]) by {
        assert(s.take(k)[i] == s[i]);
    }
}

pub proof fn lemma_trim_zeros_pad(s: Seq<char>)
    ensures
        trim_zeros(s).len() <= s.len(),
        trim_zeros(s) + zeros((s.len() - trim_zeros(s).len()) as nat) == s,
        trim_zeros(s) == s.take(trim_zeros(s).len() as int),
    decreases s.len(),
{
    if s.len() > 0 && s.last() == '0' {
        lemma_trim_zeros_pad(s.drop_last());
        let t = trim_zeros(s);
        let k = (s.len() - t.len()) as nat;
        assert(t + zeros(k) =~= s) by {
            assert(t + zeros((k - 1) as nat) == s.drop_last());
            assert forall|i: int| 0 <= i < s.len() implies (t + zeros(k))[i] == s[i] by {
                if i < s.len() - 1 {
                    assert((t + zeros(k))[i] == (t + zeros((k - 1) as nat))[i]);
                }
            }
        }
        assert(t =~= s.take(t.len() as int)) by {
            assert(t == s.drop_last().take(t.len() as int));
        }
    } else {
        assert(s + zeros(0) =~= s);
        assert(s.take(s.len() as int) =~= s);
    }
}

/// The decimal number parsed from its text is that number.
pub proof fn lemma_decimal_roundtrip(whole: nat, frac: nat)
    requires
        whole <= u64::MAX,
        frac < 1_000_000_000,
    ensures
        parse_decimal(decimal_text(whole, frac)) == Some((whole, frac)),
{
    let s = decimal_text(whole, frac);
    lemma_dec(whole);
    let di = dec(whole);
    assert forall|j: int| 0 <= j < di.len() implies di[j] != '.' by {
        assert(is_digit(di[j]));
    }
    assert(s[0] == di[0]);
    assert(unsigned_digits(s) == s);
    if frac == 0 {
        lemma_find_char(s, '.');
        if let Some(k) = find_char(s, '.') {
            assert(false);
        }
        let e = Seq::<char>::empty();
        assert(all_digits(e));
        assert(nine_digits(e) == e + zeros(9));
        lemma_decimal_value_zeros(e, 9);
        assert(decimal_value(e) == 0);
        assert(decimal_value(e) * pow10(9) == 0) by (nonlinear_arith)
            requires
                decimal_value(e) == 0,
        ;
        assert(decimal_value(e + zeros(9)) == 0);
        assert(decimal_value(nine_digits(e)) == 0);
        assert(parse_decimal(s) == Some((whole, frac)));
    } else {
        let f = fixed_digits(frac, 9);
        lemma_pow10_9();
        lemma_fixed_digits(frac, 9);
        let t = trim_zeros(f);
        lemma_trim_zeros_pad(f);
        assert forall|j: int| 0 <= j < di.len() implies s[j] != '.' by {
            assert(s[j] == di[j]);
        }
        assert(s[di.len() as int] == '.');
        lemma_find_char_at(s, '.', di.len() as int);
        assert(s.take(di.len() as int) =~= di);
        assert(s.skip(di.len() as int + 1) =~= t);
        lemma_all_digits_prefix(f, t.len() as int);
        assert(all_digits(t));
        if t.len() == 9 {
            assert(t.take(9) =~= t);
            assert(f.take(9) =~= f);
        } else {
            assert(zeros((9 - t.len()) as nat) == Seq::new((9 - t.len()) as nat, |i: int| '0'));
        }
        assert(nine_digits(t) == f);
        assert(decimal_value(nine_digits(t)) == frac);
        assert(parse_decimal(s) == Some((whole, frac)));
    }
}

/// Whether every character of `v` between `start` and `end` is a digit, and the value
/// of those digits if it is no larger than `max` (`0` if there are none).
pub fn parse_digits(v: &Vec<char>, start: usize, end: usize, max: u64) -> (res: Option<u64>)
    requires
        start <= end <= v.len(),
    ensures
        res matches Some(n) ==> all_digits(v@.subrange(start as int, end as int)) && n
            == decimal_value(v@.subrange(start as int, end as int)) && n <= max,
        res is None ==> !all_digits(v@.subrange(start as int, end as int)) || decimal_value(
            v@.subrange(start as int, end as int),
        ) > max,
{
    let ghost d = v@.subrange(start as int, end as int);
    let mut n: u64 = 0;
    let mut i = start;
    while i < end
        invariant
            start <= i <= end <= v.len(),
            d == v@.subrange(start as int, end as int),
            all_digits(v@.subrange(start as int, i as int)),
            n == decimal_value(v@.subrange(start as int, i as int)),
            n <= max,
        decreases end - i,
    {
        let c = v[i];
        let ghost prefix = v@.subrange(start as int, i as int);
        let ghost next = v@.subrange(start as int, i + 1);
        assert(next.drop_last() == prefix);
        if !('0' <= c && c <= '9') {
            assert(d[i - start] == c);
            assert(!is_digit(d[i - start]));
            return None;
        }
        assert(all_digits(next)) by {
            assert forall|j: int| 0 <= j < next.len() implies #[trigger] is_digit(next[j]) by {
                if j < prefix.len() {
                    assert(next[j] == prefix[j]);
                }
            }
        }
        let dv = (c as u32 - '0' as u32) as u64;
        assert(decimal_value(next) == n * 10 + dv);
        if dv > max || n > (max - dv) / 10 {
            proof {
                assert(decimal_value(next) > max) by (nonlinear_arith)
                    requires
                        dv > max || n > (max - dv) / 10,
                        decimal_value(next) == n * 10 + dv,
                        0 <= dv <= 9,
                        n >= 0,
                ;
                let rest = v@.subrange(i + 1, end as int);
                assert(d == next + rest);
                if all_digits(d) {
                    lemma_decimal_value_bound(next, rest);
                }
            }
            return None;
        }
        assert(n * 10 + dv <= max) by (nonlinear_arith)
            requires
                dv <= max,
                n <= (max - dv) / 10,
        ;
        n = n * 10 + dv;
        i = i + 1;
    }
    Some(n)
}

/// The parts of a parsed decimal number are in range.
pub proof fn lemma_parse_decimal_range(s: Seq<char>)
    ensures
        parse_decimal(s) matches Some((a, b)) ==> a <= u64::MAX && b < 1_000_000_000,
{
    if let Some((a, b)) = parse_decimal(s) {
        let d = unsigned_digits(s);
        let fp = match find_char(d, '.') {
            Some(k) => d.skip(k + 1),
            None => seq![],
        };
        let n = nine_digits(fp);
        assert(all_digits(n)) by {
            if fp.len() >= 9 {
                lemma_all_digits_prefix(fp, 9);
            } else {
                assert forall|i: int| 0 <= i < n.len() implies #[trigger] is_digit(n[i]) by {
                    if i < fp.len() {
                        assert(n[i] == fp[i]);
                    } else {
                        assert(n[i] == '0');
                    }
                }
            }
        }
        lemma_fixed_bound(n);
        lemma_pow10_9();
    }
}

/// Whether every character of `v` between `start` and `end` is a digit.
pub fn are_digits(v: &Vec<char>, start: usize, end: usize) -> (res: bool)
    requires
        start <= end <= v.len(),
    ensures
        res == all_digits(v@.subrange(start as int, end as int)),
{
    let ghost d = v@.subrange(start as int, end as int);
    let mut i = start;
    while i < end
        invariant
            start <= i <= end <= v.len(),
            d == v@.subrange(start as int, end as int),
            forall|j: int| 0 <= j < i - start ==> #[trigger] is_digit(d[j]),
        decreases end - i,
    {
        if !('0' <= v[i] && v[i] <= '9') {
            assert(!is_digit(d[i - start]));
            return false;
        }
        i = i + 1;
    }
    true
}

/// The value of the digits of a decimal fraction, in units of `10^-9`.
fn fraction_nanos(v: &Vec<char>, fs: usize) -> (res: Option<u32>)
    requires
        fs <= v.len(),
    ensures
        res matches Some(n) ==> all_digits(v@.subrange(fs as int, v.len() as int)) && n
            == decimal_value(nine_digits(v@.subrange(fs as int, v.len() as int))),
        res is None ==> !all_digits(v@.subrange(fs as int, v.len() as int)),
{
    let ghost fp = v@.subrange(fs as int, v.len() as int);
    if !are_digits(v, fs, v.len()) {
        return None;
    }
    let flen = v.len() - fs;
    let take = if flen >= 9 {
        9
    } else {
        flen
    };
    let ghost t = v@.subrange(fs as int, fs + take);
    proof {
        assert(fp.take(take as int) == t);
        lemma_all_digits_prefix(fp, take as int);
        lemma_fixed_bound(t);
        lemma_pow10_9();
        lemma_pow10_mono(take as nat, 9);
    }
    let fv = match parse_digits(v, fs, fs + take, 999_999_999) {
        Some(n) => n,
        None => {
            return None;
        },
    };
    let mut scaled: u64 = fv;
    let mut k = take;
    assert(pow10(0) == 1);
    assert((k - take) as nat == 0);
    assert(decimal_value(t) * pow10(0) == decimal_value(t));
    while k < 9
        invariant
            take <= k <= 9,
            take < 9 ==> t == fp,
            scaled == decimal_value(t) * pow10((k - take) as nat),
            scaled < pow10(k as nat),
            t.len() == take,
        decreases 9 - k,
    {
        proof {
            assert(pow10((k + 1 - take) as nat) == 10 * pow10((k - take) as nat));
            assert(pow10((k + 1) as nat) == 10 * pow10(k as nat));
            assert(decimal_value(t) * pow10((k + 1 - take) as nat) == decimal_value(t) * pow10(
                (k - take) as nat,
            ) * 10) by (nonlinear_arith)
                requires
                    pow10((k + 1 - take) as nat) == 10 * pow10((k - take) as nat),
            ;
            lemma_pow10_bound(k as nat);
        }
        scaled = scaled * 10;
        k = k + 1;
    }
    proof {
        lemma_pow10_9();
        if take < 9 {
            lemma_decimal_value_zeros(fp, (9 - take) as nat);
            assert(nine_digits(fp) == fp + zeros((9 - take) as nat));
        } else {
            assert(nine_digits(fp) == t);
            assert(pow10(0) == 1);
            assert(decimal_value(t) * pow10(0) == decimal_value(t));
        }
    }
    Some(scaled as u32)
}

/// Parses the decimal number held by `v` (see [`parse_decimal`]).
pub fn parse_decimal_chars(v: &Vec<char>) -> (res: Option<(u64, u32)>)
    ensures
        res matches Some((i, f)) ==> parse_decimal(v@) == Some((i as nat, f as nat)),
        res is None ==> parse_decimal(v@) is None,
{
    let mut s: usize = 0;
    if v.len() > 0 && v[0] == '+' {
        s = 1;
    }
    let ghost d = unsigned_digits(v@);
    assert(d == v@.subrange(s as int, v.len() as int));
    let dot = position(v, s, v.len(), '.');
    proof {
        lemma_find_char(d, '.');
    }
    let (ie, fs) = match dot {
        Some(k) => (s + k, s + k + 1),
        None => (v.len(), v.len()),
    };
    assert(d.take(ie - s) == v@.subrange(s as int, ie as int));
    assert(d.skip(fs - s) == v@.subrange(fs as int, v.len() as int));
    if (ie - s) + (v.len() - fs) == 0 {
        return None;
    }
    let ip = match parse_digits(v, s, ie, u64::MAX) {
        Some(n) => n,
        None => {
            return None;
        },
    };
    match fraction_nanos(v, fs) {
        Some(f) => Some((ip, f)),
        None => None,
    }
}

proof fn lemma_fixed_bound(t: Seq<char>)
    requires
        all_digits(t),
    ensures
        decimal_value(t) < pow10(t.len()),
    decreases t.len(),
{
    if t.len() > 0 {
        assert(all_digits(t.drop_last())) by {
            assert forall|i: int| 0 <= i < t.drop_last().len() implies #[trigger] is_digit(
                t.drop_last()[i],
            ) by {
                assert(t.drop_last()[i] == t[i]);
            }
        }
        lemma_fixed_bound(t.drop_last());
        assert(is_digit(t[t.len() - 1]));
        assert(decimal_value(t) < pow10(t.len())) by (nonlinear_arith)
            requires
                decimal_value(t) == decimal_value(t.drop_last()) * 10 + digit_value(t.last()),
                digit_value(t.last()) <= 9,
                decimal_value(t.drop_last()) < pow10(t.drop_last().len()),
                pow10(t.len()) == 10 * pow10(t.drop_last().len()),
        ;
    }
}

proof fn lemma_pow10_bound(k: nat)
    requires
        k < 9,
    ensures
        pow10(k + 1) <= 1_000_000_000,
{
    lemma_pow10_9();
    lemma_pow10_mono(k + 1, 9);
}

proof fn lemma_pow10_mono(a: nat, b: nat)
    requires
        a <= b,
    ensures
        pow10(a) <= pow10(b),
    decreases b,
{
    if a < b {
        lemma_pow10_mono(a, (b - 1) as nat);
    }
}

/// Appends `decimal_text(int, frac)` to `out`.
pub fn push_decimal(out: &mut Vec<char>, whole: u64, frac: u32)
    ensures
        final(out)@ == old(out)@ + decimal_text(whole as nat, frac as nat),
{
    push_u64(out, whole);
    if frac != 0 {
        out.push('.');
        let mut f: Vec<char> = Vec::new();
        push_fixed_digits(&mut f, frac as u64, 9);
        drop_trailing_zeros(&mut f);
        push_chars(out, &f);
    }
}


/// The text of a decimal number is made of digits and a point, and is not empty.
pub proof fn lemma_decimal_text_plain(whole: nat, frac: nat)
    requires
        frac < 1_000_000_000,
    ensures
        decimal_text(whole, frac).len() > 0,
        forall|i: int|
            0 <= i < decimal_text(whole, frac).len() ==> (is_digit(
                #[trigger] decimal_text(whole, frac)[i],
            ) || decimal_text(whole, frac)[i] == '.'),
{
    lemma_dec(whole);
    let di = dec(whole);
    if frac != 0 {
        let f = fixed_digits(frac, 9);
        lemma_pow10_9();
        lemma_fixed_digits(frac, 9);
        lemma_trim_zeros_pad(f);
        let t = trim_zeros(f);
        lemma_all_digits_prefix(f, t.len() as int);
        let s = decimal_text(whole, frac);
        assert forall|i: int| 0 <= i < s.len() implies (is_digit(#[trigger] s[i]) || s[i] == '.') by {
            if i < di.len() {
                assert(s[i] == di[i]);
            } else if i > di.len() {
                assert(s[i] == t[i - di.len() - 1]);
            }
        }
    }
}

/// Trimming never makes a text longer.
proof fn lemma_trim_len(s: Seq<char>)
    ensures
        trim_start(s).len() <= s.len(),
        trim_end(s).len() <= s.len(),
    decreases s.len(),
{
    if s.len() > 0 {
        lemma_trim_len(s.drop_first());
        lemma_trim_len(s.drop_last());
    }
}

/// A text that is not empty and is its own trim neither starts nor ends with white
/// space.
pub proof fn lemma_trim_keeps_ends(s: Seq<char>)
    requires
        s.len() > 0,
        trim(s) == s,
    ensures
        !is_ws(s[0]),
        !is_ws(s.last()),
{
    lemma_trim_len(s);
    lemma_trim_len(trim_start(s));
    if is_ws(s[0]) {
        lemma_trim_len(s.drop_first());
        assert(trim_start(s) == trim_start(s.drop_first()));
        assert(false);
    }
    assert(trim_start(s) == s);
    if is_ws(s.last()) {
        lemma_trim_len(s.drop_last());
        assert(trim_end(s) == trim_end(s.drop_last()));
        assert(false);
    }
}

/// A sequence that neither starts nor ends with white space is its own trim.
pub proof fn lemma_trim_id(s: Seq<char>)
    requires
        s.len() > 0,
        !is_ws(s[0]),
        !is_ws(s.last()),
    ensures
        trim(s) == s,
{
    assert(trim_start(s) == s);
    assert(trim_end(s) == s);
}

/// Stripping the tag `p` from `p + b` gives `b`, when `p + b` does not start or end with
/// white space.
pub proof fn lemma_after_tag(p: Seq<char>, b: Seq<char>)
    requires
        p.len() > 0,
        !is_ws(p[0]),
        b.len() == 0 ==> !is_ws(p.last()),
        b.len() > 0 ==> !is_ws(b.last()),
    ensures
        after_tag(p + b, p) == Some(b),
{
    let s = p + b;
    assert(s[0] == p[0]);
    if b.len() == 0 {
        assert(s == p);
    } else {
        assert(s.last() == b.last());
    }
    lemma_trim_id(s);
    assert(s.take(p.len() as int) == p);
    assert(s.skip(p.len() as int) == b);
}

/// Strips the tag `p` from the line `v`, or says that the line lacks it.
pub fn expect_tag(v: &Vec<char>, p: &str) -> (res: Result<Vec<char>, Error>)
    ensures
        after_tag(v@, p@) matches Some(r) ==> (res matches Ok(x) && x@ == r),
        after_tag(v@, p@) is None ==> (res matches Err(Error::MissingTag { tag, input }) && tag@
            == p@ && input@ == v@),
{
    match strip_tag(v, p) {
        Some(r) => Ok(r),
        None => Err(Error::MissingTag { tag: String::from_str(p), input: string_of(v) }),
    }
}

/// Parses an unsigned integer no larger than `max`, or gives a `ParseIntError` that
/// holds the input.
pub fn expect_unsigned(v: &Vec<char>, max: u64) -> (res: Result<u64, Error>)
    ensures
        parse_unsigned(v@, max as nat) matches Some(n) ==> res == Ok::<u64, Error>(n as u64),
        parse_unsigned(v@, max as nat) is None ==> (res matches Err(Error::ParseIntError { input })
            && input@ == v@),
{
    match parse_unsigned_int(v, max) {
        Some(n) => Ok(n),
        None => Err(Error::ParseIntError { input: string_of(v) }),
    }
}

/// The pieces of `s` between the separators `c` (`str::split`): there is always at
/// least one piece.
pub open spec fn split_on(s: Seq<char>, c: char) -> Seq<Seq<char>>
    decreases s.len(),
{
    match find_char(s, c) {
        None => seq![s],
        Some(k) => {
            proof {
                lemma_find_char(s, c);
            }
            seq![s.take(k)] + split_on(s.skip(k + 1), c)
        },
    }
}

/// Splits `v` at every `c` (`str::split`).
pub fn split_chars(v: &Vec<char>, c: char) -> (res: Vec<Vec<char>>)
    ensures
        res@.len() == split_on(v@, c).len(),
        forall|i: int| 0 <= i < res@.len() ==> (#[trigger] res@[i])@ == split_on(v@, c)[i],
{
    let mut res: Vec<Vec<char>> = Vec::new();
    let mut pos: usize = 0;
    assert(v@.skip(0) == v@);
    assert(split_on(v@, c).skip(0) == split_on(v@, c));
    loop
        invariant
            pos <= v.len(),
            res@.len() + split_on(v@.skip(pos as int), c).len() == split_on(v@, c).len(),
            split_on(v@.skip(pos as int), c) == split_on(v@, c).skip(res@.len() as int),
            forall|i: int| 0 <= i < res@.len() ==> (#[trigger] res@[i])@ == split_on(v@, c)[i],
        decreases v.len() - pos,
    {
        let ghost rest = v@.skip(pos as int);
        let ghost all = split_on(v@, c);
        assert(v@.subrange(pos as int, v.len() as int) == rest);
        match position(v, pos, v.len(), c) {
            None => {
                let piece = slice_of(v, pos, v.len());
                assert(split_on(rest, c) == seq![rest]);
                assert(all.skip(res@.len() as int)[0] == all[res@.len() as int]);
                res.push(piece);
                assert(res@.len() == all.len());
                return res;
            },
            Some(k) => {
                proof {
                    lemma_find_char(rest, c);
                }
                let piece = slice_of(v, pos, pos + k);
                assert(piece@ == rest.take(k as int));
                assert(v@.skip(pos + k + 1) == rest.skip(k as int + 1));
                assert(split_on(rest, c) == seq![rest.take(k as int)] + split_on(rest.skip(k as int + 1), c));
                assert(all.skip(res@.len() as int)[0] == all[res@.len() as int]);
                assert(all.skip(res@.len() as int).drop_first() == all.skip(res@.len() as int + 1));
                assert((seq![rest.take(k as int)] + split_on(rest.skip(k as int + 1), c)).drop_first()
                    == split_on(rest.skip(k as int + 1), c));
                res.push(piece);
                pos = pos + k + 1;
            },
        }
    }
}

} // verus!
