//! Attribute lists (`KEY=VALUE,KEY="VALUE",...`, RFC 8216 section 4.2).
use vstd::prelude::*;

use crate::error::Error;
use crate::text::{
    chars_of, dec, equals_str, expect_unsigned, find_char, is_digit, is_ws, lemma_dec,
    lemma_find_char,
    lemma_strip_quotes_plain, lemma_trim_id, no_lf, parse_unsigned, position, push_chars, quoted,
    string_of, strip_quotes, trim, trimmed, unquote,
};

verus! {

/// The state of the quote flag after scanning `s`, starting in state `inside`.
pub open spec fn quote_state(s: Seq<char>, inside: bool) -> bool
    decreases s.len(),
{
    if s.len() == 0 {
        inside
    } else if s[0] == '"' {
        quote_state(s.drop_first(), !inside)
    } else {
        quote_state(s.drop_first(), inside)
    }
}

/// The index of the first `,` in `s` that is not between double quotes, when the scan
/// starts in state `inside`.
pub open spec fn find_comma(s: Seq<char>, inside: bool) -> Option<int>
    decreases s.len(),
{
    if s.len() == 0 {
        None
    } else if s[0] == '"' {
        match find_comma(s.drop_first(), !inside) {
            Some(i) => Some(i + 1),
            None => None,
        }
    } else if s[0] == ',' && !inside {
        Some(0)
    } else {
        match find_comma(s.drop_first(), inside) {
            Some(i) => Some(i + 1),
            None => None,
        }
    }
}

/// The key/value pairs of an attribute list, in order, each trimmed of white space.
///
/// A key ends at the first `=`; its value ends at the next `,` that is not between
/// double quotes, or at the end of the input. The list ends where fewer than two
/// characters remain or no `=` follows.
pub open spec fn attr_pairs(s: Seq<char>) -> Seq<(Seq<char>, Seq<char>)>
    decreases s.len(),
{
    if s.len() <= 1 {
        seq![]
    } else {
        match find_char(s, '=') {
            None => seq![],
            Some(e) => {
                let key = trim(s.take(e));
                let rest = s.skip(e + 1);
                match find_comma(rest, false) {
                    None => seq![(key, trim(rest))],
                    Some(c) => {
                        proof {
                            lemma_find_char(s, '=');
                            lemma_find_comma_range(rest, false);
                            assert(rest.skip(c + 1).len() < s.len());
                        }
                        seq![(key, trim(rest.take(c)))] + attr_pairs(rest.skip(c + 1))
                    },
                }
            },
        }
    }
}

/// The number of `=` in `s` that are not between double quotes, when the scan starts in
/// state `inside`.
pub open spec fn count_equals(s: Seq<char>, inside: bool) -> nat
    decreases s.len(),
{
    if s.len() == 0 {
        0
    } else if s[0] == '=' && !inside {
        1 + count_equals(s.drop_first(), inside)
    } else if s[0] == '"' {
        count_equals(s.drop_first(), !inside)
    } else {
        count_equals(s.drop_first(), inside)
    }
}

/// What remains of the attribute list `s` after its first pair has been read: the text
/// after the `,` that ends the first value (nothing when no `,` follows), or `s` itself
/// when `s` has no pair.
pub open spec fn pair_rest(s: Seq<char>) -> Seq<char> {
    if s.len() <= 1 {
        s
    } else {
        match find_char(s, '=') {
            None => s,
            Some(e) => {
                let rest = s.skip(e + 1);
                match find_comma(rest, false) {
                    None => seq![],
                    Some(c) => rest.skip(c + 1),
                }
            },
        }
    }
}

/// An attribute list whose keys hold no double quote and whose values hold no `=`
/// outside double quotes, and that does not end in a lone `=`.
pub open spec fn plain_list(s: Seq<char>) -> bool
    decreases s.len(),
{
    if s.len() <= 1 {
        s != seq!['=']
    } else {
        match find_char(s, '=') {
            None => true,
            Some(e) => {
                let rest = s.skip(e + 1);
                &&& !s.take(e).contains('"')
                &&& match find_comma(rest, false) {
                    None => count_equals(rest, false) == 0,
                    Some(c) => {
                        proof {
                            lemma_find_char(s, '=');
                            lemma_find_comma_range(rest, false);
                        }
                        count_equals(rest.take(c), false) == 0 && plain_list(rest.skip(c + 1))
                    },
                }
            },
        }
    }
}

/// The `=` outside double quotes in `a + b` are those of `a` and those of `b`, where
/// the scan of `b` starts in the state that `a` leaves.
proof fn lemma_count_equals_concat(a: Seq<char>, b: Seq<char>, inside: bool)
    ensures
        count_equals(a + b, inside) == count_equals(a, inside) + count_equals(b, quote_state(a, inside)),
    decreases a.len(),
{
    if a.len() == 0 {
        assert(a + b == b);
    } else {
        assert((a + b).drop_first() == a.drop_first() + b);
        lemma_count_equals_concat(a.drop_first(), b, !inside);
        lemma_count_equals_concat(a.drop_first(), b, inside);
    }
}

/// A text without `=` has no `=` to count.
proof fn lemma_count_equals_none(s: Seq<char>, inside: bool)
    requires
        !s.contains('='),
    ensures
        count_equals(s, inside) == 0,
    decreases s.len(),
{
    if s.len() > 0 {
        assert(s[0] != '=');
        assert forall|j: int| 0 <= j < s.drop_first().len() implies s.drop_first()[j] != '=' by {
            assert(s.drop_first()[j] == s[j + 1]);
        }
        lemma_count_equals_none(s.drop_first(), !inside);
        lemma_count_equals_none(s.drop_first(), inside);
    }
}

/// A text without double quotes leaves the quote flag as it was.
proof fn lemma_quote_state_none(s: Seq<char>, inside: bool)
    requires
        !s.contains('"'),
    ensures
        quote_state(s, inside) == inside,
    decreases s.len(),
{
    if s.len() > 0 {
        assert(s[0] != '"');
        assert forall|j: int| 0 <= j < s.drop_first().len() implies s.drop_first()[j] != '"' by {
            assert(s.drop_first()[j] == s[j + 1]);
        }
        lemma_quote_state_none(s.drop_first(), inside);
    }
}

/// Before the first `,` outside double quotes, the quotes are balanced.
proof fn lemma_find_comma_state(s: Seq<char>, inside: bool)
    ensures
        find_comma(s, inside) matches Some(c) ==> quote_state(s.take(c), inside) == false,
    decreases s.len(),
{
    if s.len() > 0 {
        lemma_find_comma_state(s.drop_first(), !inside);
        lemma_find_comma_state(s.drop_first(), inside);
        lemma_find_comma_range(s, inside);
        lemma_find_comma_range(s.drop_first(), inside);
        lemma_find_comma_range(s.drop_first(), !inside);
        if let Some(c) = find_comma(s, inside) {
            if c > 0 {
                let t = s.take(c);
                assert(t[0] == s[0]);
                assert(t.drop_first() == s.drop_first().take(c - 1));
                if s[0] == '"' {
                    assert(find_comma(s.drop_first(), !inside) == Some(c - 1));
                    assert(quote_state(t, inside) == quote_state(t.drop_first(), !inside));
                    assert(quote_state(s.drop_first().take(c - 1), !inside) == false);
                } else {
                    assert(find_comma(s.drop_first(), inside) == Some(c - 1));
                    assert(quote_state(t, inside) == quote_state(t.drop_first(), inside));
                    assert(quote_state(s.drop_first().take(c - 1), inside) == false);
                }
            } else {
                assert(s[0] == ',' && !inside);
                assert(s.take(c).len() == 0);
            }
        }
    }
}

/// The count of `size_hint` is exact on plain lists: for an attribute list whose keys
/// hold no double quote and whose values hold no `=` outside double quotes, and that
/// does not end in a lone `=`, the number of `=` outside double quotes is the number
/// of pairs that are read from it; and what remains after its first pair is again
/// such a list.
pub proof fn lemma_size_hint_exact(s: Seq<char>)
    requires
        plain_list(s),
    ensures
        count_equals(s, false) == attr_pairs(s).len(),
        plain_list(pair_rest(s)),
    decreases s.len(),
{
    if s.len() <= 1 {
        if s.len() == 1 {
            assert(s[0] != '=') by {
                if s[0] == '=' {
                    assert(s =~= seq!['=']);
                }
            }
            assert(s.drop_first().len() == 0);
            assert(count_equals(s.drop_first(), true) == 0);
            assert(count_equals(s.drop_first(), false) == 0);
        }
        assert(attr_pairs(s).len() == 0);
    } else {
        lemma_find_char(s, '=');
        match find_char(s, '=') {
            None => {
                lemma_count_equals_none(s, false);
            },
            Some(e) => {
                let key = s.take(e);
                let rest = s.skip(e + 1);
                assert(s =~= key + (seq!['='] + rest));
                assert(!key.contains('=')) by {
                    assert forall|j: int| 0 <= j < key.len() implies key[j] != '=' by {
                        assert(key[j] == s[j]);
                    }
                }
                lemma_count_equals_none(key, false);
                lemma_quote_state_none(key, false);
                lemma_count_equals_concat(key, seq!['='] + rest, false);
                assert((seq!['='] + rest).drop_first() == rest);
                assert(count_equals(s, false) == 1 + count_equals(rest, false));
                lemma_find_comma_range(rest, false);
                match find_comma(rest, false) {
                    None => {
                        assert(attr_pairs(s).len() == 1);
                    },
                    Some(c) => {
                        let value = rest.take(c);
                        let tail = rest.skip(c + 1);
                        assert(rest =~= value + (seq![','] + tail));
                        lemma_find_comma_state(rest, false);
                        lemma_count_equals_concat(value, seq![','] + tail, false);
                        assert((seq![','] + tail).drop_first() == tail);
                        assert(count_equals(rest, false) == count_equals(tail, false));
                        lemma_size_hint_exact(tail);
                        assert(attr_pairs(s).len() == 1 + attr_pairs(tail).len());
                    },
                }
            },
        }
    }
}

pub proof fn lemma_find_comma_range(s: Seq<char>, inside: bool)
    ensures
        find_comma(s, inside) matches Some(i) ==> 0 <= i < s.len() && s[i] == ',',
    decreases s.len(),
{
    if s.len() > 0 {
        lemma_find_comma_range(s.drop_first(), !inside);
        lemma_find_comma_range(s.drop_first(), inside);
    }
}

pub proof fn lemma_find_comma_concat(a: Seq<char>, b: Seq<char>, inside: bool)
    ensures
        find_comma(a + b, inside) == match find_comma(a, inside) {
            Some(i) => Some(i),
            None => match find_comma(b, quote_state(a, inside)) {
                Some(j) => Some(a.len() + j),
                None => None,
            },
        },
    decreases a.len(),
{
    if a.len() == 0 {
        assert(a + b == b);
    } else {
        assert((a + b).drop_first() == a.drop_first() + b);
        assert((a + b)[0] == a[0]);
        if a[0] == '"' {
            lemma_find_comma_concat(a.drop_first(), b, !inside);
        } else {
            lemma_find_comma_concat(a.drop_first(), b, inside);
        }
    }
}

proof fn lemma_scan_step(s: Seq<char>, i: int, inside: bool)
    requires
        0 <= i < s.len(),
        find_comma(s.take(i), false) is None,
        quote_state(s.take(i), false) == inside,
        !(s[i] == ',' && !inside),
    ensures
        find_comma(s.take(i + 1), false) is None,
        quote_state(s.take(i + 1), false) == if s[i] == '"' {
            !inside
        } else {
            inside
        },
{
    let c = seq![s[i]];
    assert(s.take(i + 1) == s.take(i) + c);
    assert(c.drop_first().len() == 0);
    assert(find_comma(c.drop_first(), true) is None);
    assert(find_comma(c.drop_first(), false) is None);
    assert(quote_state(c.drop_first(), true) == true);
    assert(quote_state(c.drop_first(), false) == false);
    lemma_find_comma_concat(s.take(i), c, false);
    lemma_quote_state_concat(s.take(i), c, false);
    assert(c.drop_first().len() == 0);
}

pub proof fn lemma_quote_state_concat(a: Seq<char>, b: Seq<char>, inside: bool)
    ensures
        quote_state(a + b, inside) == quote_state(b, quote_state(a, inside)),
    decreases a.len(),
{
    if a.len() == 0 {
        assert(a + b == b);
    } else {
        assert((a + b).drop_first() == a.drop_first() + b);
        assert((a + b)[0] == a[0]);
        if a[0] == '"' {
            lemma_quote_state_concat(a.drop_first(), b, !inside);
        } else {
            lemma_quote_state_concat(a.drop_first(), b, inside);
        }
    }
}

/// Finds the end of the value that starts at `start`: the index, relative to `start`,
/// of the first `,` that is not between double quotes.
fn value_end(v: &Vec<char>, start: usize) -> (res: Option<usize>)
    requires
        start <= v.len(),
    ensures
        res matches Some(k) ==> find_comma(v@.skip(start as int), false) == Some(k as int),
        res is None ==> find_comma(v@.skip(start as int), false) is None,
{
    let ghost s = v@.skip(start as int);
    let mut inside = false;
    let mut i = start;
    assert(s.take(0).len() == 0);
    while i < v.len()
        invariant
            start <= i <= v.len(),
            s == v@.skip(start as int),
            find_comma(s.take(i - start), false) is None,
            quote_state(s.take(i - start), false) == inside,
        decreases v.len() - i,
    {
        let c = v[i];
        assert(s[i - start] == c);
        if c == ',' && !inside {
            proof {
                let a = s.take(i - start);
                let b = s.skip(i - start);
                assert(s == a + b);
                lemma_find_comma_concat(a, b, false);
                assert(b[0] == ',');
            }
            return Some(i - start);
        }
        proof {
            lemma_scan_step(s, i - start, inside);
        }
        if c == '"' {
            inside = !inside;
        }
        i = i + 1;
    }
    assert(s.take(i - start) == s);
    None
}

/// The first key/value pair of the attribute list that starts at `start` in `v`, and
/// the index where the rest of the list starts.
pub fn next_pair(v: &Vec<char>, start: usize) -> (res: Option<(Vec<char>, Vec<char>, usize)>)
    requires
        start <= v.len(),
    ensures
        res matches Some((k, x, next)) ==> {
            &&& attr_pairs(v@.skip(start as int)).len() > 0
            &&& attr_pairs(v@.skip(start as int))[0] == (k@, x@)
            &&& start < next <= v.len()
            &&& attr_pairs(v@.skip(next as int)) == attr_pairs(v@.skip(start as int)).drop_first()
            &&& v@.skip(next as int) == pair_rest(v@.skip(start as int))
        },
        res is None ==> attr_pairs(v@.skip(start as int)).len() == 0 && pair_rest(v@.skip(start as int))
            == v@.skip(start as int),
{
    let ghost s = v@.skip(start as int);
    if v.len() - start <= 1 {
        return None;
    }
    let e = match position(v, start, v.len(), '=') {
        Some(e) => e,
        None => {
            assert(v@.subrange(start as int, v.len() as int) == s);
            return None;
        },
    };
    assert(v@.subrange(start as int, v.len() as int) == s);
    proof {
        lemma_find_char(s, '=');
    }
    let key = trimmed(v, start, start + e);
    assert(v@.subrange(start as int, start + e) == s.take(e as int));
    let vs = start + e + 1;
    assert(v@.skip(vs as int) == s.skip(e + 1));
    match value_end(v, vs) {
        None => {
            let value = trimmed(v, vs, v.len());
            assert(v@.subrange(vs as int, v.len() as int) == s.skip(e + 1));
            assert(v@.skip(v.len() as int) =~= pair_rest(s));
            assert(attr_pairs(s) == seq![(key@, value@)]);
            Some((key, value, v.len()))
        },
        Some(c) => {
            proof {
                lemma_find_comma_range(v@.skip(vs as int), false);
            }
            let value = trimmed(v, vs, vs + c);
            let ghost rest = s.skip(e + 1);
            assert(v@.subrange(vs as int, vs + c) == rest.take(c as int));
            assert(v@.skip(vs + c + 1) == rest.skip(c + 1));
            assert(attr_pairs(s) == seq![(key@, value@)] + attr_pairs(rest.skip(c + 1)));
            assert((seq![(key@, value@)] + attr_pairs(rest.skip(c + 1))).drop_first()
                == attr_pairs(rest.skip(c + 1)));
            Some((key, value, vs + c + 1))
        },
    }
}

/// All key/value pairs of the attribute list that starts at `start` in `v`.
pub fn all_pairs(v: &Vec<char>, start: usize) -> (res: Vec<(Vec<char>, Vec<char>)>)
    requires
        start <= v.len(),
    ensures
        res.len() == attr_pairs(v@.skip(start as int)).len(),
        forall|i: int|
            0 <= i < res.len() ==> (#[trigger] res[i]).0@ == attr_pairs(v@.skip(start as int))[i].0
                && res[i].1@ == attr_pairs(v@.skip(start as int))[i].1,
{
    let ghost all = attr_pairs(v@.skip(start as int));
    let mut res: Vec<(Vec<char>, Vec<char>)> = Vec::new();
    let mut pos = start;
    loop
        invariant
            start <= pos <= v.len(),
            all == attr_pairs(v@.skip(start as int)),
            res.len() + attr_pairs(v@.skip(pos as int)).len() == all.len(),
            attr_pairs(v@.skip(pos as int)) == all.skip(res.len() as int),
            forall|i: int| 0 <= i < res.len() ==> (#[trigger] res[i]).0@ == all[i].0 && res[i].1@ == all[i].1,
        ensures
            attr_pairs(v@.skip(pos as int)).len() == 0,
            res.len() == all.len(),
        decreases v.len() - pos,
    {
        match next_pair(v, pos) {
            Some((k, x, next)) => {
                proof {
                    assert(all.skip(res.len() as int)[0] == all[res.len() as int]);
                    assert(all.skip(res.len() as int).drop_first() == all.skip(res.len() + 1));
                }
                res.push((k, x));
                pos = next;
            },
            None => {
                break;
            },
        }
    }
    res
}

/// An iterator over the key/value pairs of an attribute list.
#[derive(Debug)]
pub struct AttributePairs {
    string: Vec<char>,
    index: usize,
}

impl AttributePairs {
    #[verifier::type_invariant]
    spec fn inv(self) -> bool {
        self.index <= self.string.len()
    }

    /// The part of the list that is still to be read.
    pub closed spec fn remaining(&self) -> Seq<char> {
        self.string@.skip(self.index as int)
    }

    /// A new iterator over the pairs of `string`.
    pub fn new(string: &str) -> (res: AttributePairs)
        ensures
            res.remaining() == string@,
    {
        let v = chars_of(string);
        assert(v@.skip(0) == v@);
        AttributePairs { string: v, index: 0 }
    }

    /// The next key/value pair, if there is one.
    pub fn next(&mut self) -> (res: Option<(String, String)>)
        ensures
            attr_pairs(old(self).remaining()).len() > 0 ==> (res matches Some((k, x)) && (k@, x@)
                == attr_pairs(old(self).remaining())[0] && attr_pairs(final(self).remaining())
                == attr_pairs(old(self).remaining()).drop_first()),
            attr_pairs(old(self).remaining()).len() == 0 ==> res is None && attr_pairs(
                final(self).remaining(),
            ).len() == 0,
            final(self).remaining() == pair_rest(old(self).remaining()),
    {
        proof {
            use_type_invariant(&*self);
        }
        match next_pair(&self.string, self.index) {
            Some((k, x, next)) => {
                self.index = next;
                Some((string_of(&k), string_of(&x)))
            },
            None => None,
        }
    }

    /// The number of `=` outside double quotes in the rest of the list: a count of the
    /// pairs that are still to be read.
    pub fn size_hint(&self) -> (res: (usize, Option<usize>))
        ensures
            res.0 == count_equals(self.remaining(), false),
            res.1 == Some(res.0),
    {
        proof {
            use_type_invariant(self);
        }
        let ghost s = self.remaining();
        let mut n: usize = 0;
        let mut inside = false;
        let mut i = self.index;
        proof {
            lemma_count_equals_bound(s, false);
            assert(s.skip(0) == s);
        }
        while i < self.string.len()
            invariant
                self.index <= i <= self.string.len(),
                s == self.string@.skip(self.index as int),
                n + count_equals(s.skip(i - self.index), inside) == count_equals(s, false),
                count_equals(s.skip(i - self.index), inside) <= s.len() - (i - self.index),
                n <= i - self.index,
            decreases self.string.len() - i,
        {
            let c = self.string[i];
            let ghost t = s.skip(i - self.index);
            assert(t[0] == c);
            assert(t.drop_first() == s.skip(i - self.index + 1));
            if c == '=' && !inside {
                n = n + 1;
            } else if c == '"' {
                inside = !inside;
            }
            proof {
                lemma_count_equals_bound(t.drop_first(), inside);
            }
            i = i + 1;
        }
        assert(s.skip(i - self.index).len() == 0);
        (n, Some(n))
    }
}

proof fn lemma_count_equals_bound(s: Seq<char>, inside: bool)
    ensures
        count_equals(s, inside) <= s.len(),
    decreases s.len(),
{
    if s.len() > 0 {
        lemma_count_equals_bound(s.drop_first(), !inside);
        lemma_count_equals_bound(s.drop_first(), inside);
    }
}


/// `key=value`.
pub open spec fn pair_text(p: (Seq<char>, Seq<char>)) -> Seq<char> {
    p.0 + seq!['='] + p.1
}

/// The attribute list of the pairs `ps`: `k1=v1,k2=v2,...`.
pub open spec fn attr_list(ps: Seq<(Seq<char>, Seq<char>)>) -> Seq<char>
    decreases ps.len(),
{
    if ps.len() == 0 {
        seq![]
    } else if ps.len() == 1 {
        pair_text(ps[0])
    } else {
        attr_list(ps.drop_last()) + seq![','] + pair_text(ps.last())
    }
}

/// A key that reads back as itself: not empty, no `=`, no surrounding white space.
pub open spec fn wf_key(k: Seq<char>) -> bool {
    k.len() > 0 && find_char(k, '=') is None && trim(k) == k
}

/// A value that reads back as itself: no surrounding white space, no `,` outside double
/// quotes, and its double quotes are balanced.
pub open spec fn wf_value(v: Seq<char>) -> bool {
    trim(v) == v && find_comma(v, false) is None && quote_state(v, false) == false
}

/// Every pair of `ps` reads back as itself.
pub open spec fn wf_pairs(ps: Seq<(Seq<char>, Seq<char>)>) -> bool {
    forall|i: int| 0 <= i < ps.len() ==> wf_key(#[trigger] ps[i].0) && wf_value(ps[i].1)
}

proof fn lemma_attr_list_front(ps: Seq<(Seq<char>, Seq<char>)>)
    requires
        ps.len() >= 2,
    ensures
        attr_list(ps) == pair_text(ps[0]) + seq![','] + attr_list(ps.drop_first()),
    decreases ps.len(),
{
    if ps.len() == 2 {
        assert(ps.drop_last() == seq![ps[0]]);
        assert(ps.drop_first() == seq![ps[1]]);
        assert(attr_list(ps.drop_last()) == pair_text(ps[0]));
        assert(attr_list(ps.drop_first()) == pair_text(ps[1]));
        assert(ps.last() == ps[1]);
    } else {
        lemma_attr_list_front(ps.drop_last());
        assert(ps.drop_last().drop_first() == ps.drop_first().drop_last());
        assert(ps.drop_first().last() == ps.last());
        assert(ps.drop_last()[0] == ps[0]);
        let a = pair_text(ps[0]);
        let m = attr_list(ps.drop_first().drop_last());
        let z = pair_text(ps.last());
        assert(attr_list(ps.drop_first()) == m + seq![','] + z);
        assert(attr_list(ps) == (a + seq![','] + m) + seq![','] + z);
        assert((a + seq![','] + m) + seq![','] + z =~= a + seq![','] + (m + seq![','] + z));
    }
}

/// The pairs after the first of well-formed pairs are well-formed.
proof fn lemma_wf_pairs_drop_first(ps: Seq<(Seq<char>, Seq<char>)>)
    requires
        ps.len() > 0,
        wf_pairs(ps),
    ensures
        wf_pairs(ps.drop_first()),
{
    let r = ps.drop_first();
    assert forall|i: int| 0 <= i < r.len() implies wf_key(#[trigger] r[i].0) && wf_value(r[i].1) by {
        assert(r[i] == ps[i + 1]);
    }
}

/// Reading the attribute list of well-formed pairs gives back those pairs.
#[verifier::spinoff_prover]
pub proof fn lemma_attr_roundtrip(ps: Seq<(Seq<char>, Seq<char>)>)
    requires
        wf_pairs(ps),
    ensures
        attr_pairs(attr_list(ps)) == ps,
    decreases ps.len(),
{
    if ps.len() == 0 {
        assert(attr_pairs(attr_list(ps)) =~= ps);
    } else {
        let k = ps[0].0;
        let v = ps[0].1;
        assert(wf_key(k) && wf_value(v));
        let tail = if ps.len() == 1 {
            Seq::<char>::empty()
        } else {
            seq![','] + attr_list(ps.drop_first())
        };
        let s = attr_list(ps);
        if ps.len() >= 2 {
            lemma_attr_list_front(ps);
        }
        assert(s == k + seq!['='] + v + tail);
        lemma_find_char(k, '=');
        assert forall|j: int| 0 <= j < k.len() implies s[j] != '=' by {
            assert(s[j] == k[j]);
        }
        assert(s[k.len() as int] == '=');
        crate::text::lemma_find_char_at(s, '=', k.len() as int);
        assert(s.take(k.len() as int) == k);
        let rest = s.skip(k.len() as int + 1);
        assert(rest == v + tail);
        lemma_find_comma_concat(v, tail, false);
        if ps.len() == 1 {
            assert(find_comma(tail, false) is None);
            assert(v + tail == v);
            assert(attr_pairs(s) == seq![(k, v)]);
            assert(attr_pairs(s) =~= ps);
        } else {
            assert(tail[0] == ',');
            assert(find_comma(tail, false) == Some(0int));
            assert(find_comma(rest, false) == Some(v.len() as int));
            assert(rest.take(v.len() as int) == v);
            assert(rest.skip(v.len() as int + 1) == attr_list(ps.drop_first()));
            lemma_wf_pairs_drop_first(ps);
            lemma_attr_roundtrip(ps.drop_first());
            assert(attr_pairs(s) == seq![(k, v)] + ps.drop_first());
            assert(attr_pairs(s) =~= ps);
        }
    }
}

/// Appends the pair `key=value` to an attribute list in `out` that holds `count` pairs.
pub fn push_pair(out: &mut Vec<char>, count: usize, key: &str, value: &Vec<char>)
    ensures
        final(out)@ == old(out)@ + (if count == 0 {
            seq![]
        } else {
            seq![',']
        }) + pair_text((key@, value@)),
{
    if count != 0 {
        out.push(',');
    }
    crate::text::push_str(out, key);
    out.push('=');
    push_chars(out, value);
    assert(final(out)@ == old(out)@ + (if count == 0 {
        seq![]
    } else {
        seq![',']
    }) + pair_text((key@, value@)));
}

/// The attribute list after one more pair.
pub proof fn lemma_attr_list_push(ps: Seq<(Seq<char>, Seq<char>)>, p: (Seq<char>, Seq<char>))
    ensures
        attr_list(ps.push(p)) == attr_list(ps) + (if ps.len() == 0 {
            seq![]
        } else {
            seq![',']
        }) + pair_text(p),
{
    assert(ps.push(p).drop_last() == ps);
    if ps.len() == 0 {
        assert(ps.push(p) == seq![p]);
        assert(attr_list(ps) + seq![] + pair_text(p) == pair_text(p));
    }
}

/// A key of uppercase ASCII letters, digits and `-` reads back as itself.
pub proof fn lemma_plain_key(k: Seq<char>)
    requires
        k.len() > 0,
        forall|i: int|
            0 <= i < k.len() ==> ('A' <= #[trigger] k[i] <= 'Z') || ('0' <= k[i] <= '9') || k[i]
                == '-',
    ensures
        wf_key(k),
{
    lemma_find_char(k, '=');
    if let Some(j) = find_char(k, '=') {
        assert(k[j] == '=');
    }
    lemma_trim_id(k);
}

/// One more well-formed pair keeps a list of pairs well-formed.
pub proof fn lemma_wf_pairs_push(ps: Seq<(Seq<char>, Seq<char>)>, p: (Seq<char>, Seq<char>))
    requires
        wf_pairs(ps),
        wf_key(p.0),
        wf_value(p.1),
    ensures
        wf_pairs(ps.push(p)),
{
    assert forall|i: int| 0 <= i < ps.push(p).len() implies wf_key(#[trigger] ps.push(p)[i].0)
        && wf_value(ps.push(p)[i].1) by {
        if i < ps.len() {
            assert(ps.push(p)[i] == ps[i]);
        }
    }
}

/// The values of key `k` after one more pair.
pub proof fn lemma_values_for_push(
    ps: Seq<(Seq<char>, Seq<char>)>,
    p: (Seq<char>, Seq<char>),
    k: Seq<char>,
)
    ensures
        values_for(ps.push(p), k) == if p.0 == k {
            values_for(ps, k).push(p.1)
        } else {
            values_for(ps, k)
        },
{
    assert(ps.push(p).drop_last() == ps);
}

/// The value `x` of `v == Some(x)`, as a sequence of one value, when `c` holds.
pub open spec fn opt_val(c: bool, v: Option<Seq<char>>) -> Seq<Seq<char>> {
    if c {
        match v {
            Some(x) => seq![x],
            None => seq![],
        }
    } else {
        seq![]
    }
}

/// `ps` with the pair `key=x` added when `v` is `Some(x)`.
#[verifier::opaque]
pub open spec fn opt_push(
    ps: Seq<(Seq<char>, Seq<char>)>,
    key: Seq<char>,
    v: Option<Seq<char>>,
) -> Seq<(Seq<char>, Seq<char>)> {
    match v {
        Some(x) => ps.push((key, x)),
        None => ps,
    }
}

/// The text that an optional pair `key=x` adds to an attribute list that is not empty.
#[verifier::opaque]
pub open spec fn pair_chunk(key: Seq<char>, v: Option<Seq<char>>) -> Seq<char> {
    match v {
        Some(x) => seq![','] + pair_text((key, x)),
        None => seq![],
    }
}

/// The attribute list of a list with an optional pair added.
pub proof fn lemma_opt_push_text(
    ps: Seq<(Seq<char>, Seq<char>)>,
    key: Seq<char>,
    v: Option<Seq<char>>,
)
    requires
        ps.len() > 0,
    ensures
        attr_list(opt_push(ps, key, v)) == attr_list(ps) + pair_chunk(key, v),
        opt_push(ps, key, v).len() >= ps.len(),
{
    reveal(opt_push);
    reveal(pair_chunk);
    if let Some(x) = v {
        lemma_attr_list_push(ps, (key, x));
    } else {
        assert(attr_list(ps) + Seq::<char>::empty() == attr_list(ps));
    }
}

/// A list with an optional well-formed pair added is well-formed.
pub proof fn lemma_opt_push_wf(ps: Seq<(Seq<char>, Seq<char>)>, key: Seq<char>, v: Option<Seq<char>>)
    requires
        wf_pairs(ps),
        wf_key(key),
        v matches Some(x) ==> wf_value(x),
    ensures
        wf_pairs(opt_push(ps, key, v)),
{
    reveal(opt_push);
    if let Some(x) = v {
        lemma_wf_pairs_push(ps, (key, x));
    }
}

/// The values of key `k` in a list with an optional pair added.
pub proof fn lemma_opt_push_values(
    ps: Seq<(Seq<char>, Seq<char>)>,
    key: Seq<char>,
    v: Option<Seq<char>>,
    k: Seq<char>,
)
    ensures
        values_for(opt_push(ps, key, v), k) == values_for(ps, k) + opt_val(key == k, v),
{
    reveal(opt_push);
    if let Some(x) = v {
        lemma_values_for_push(ps, (key, x), k);
        assert(values_for(opt_push(ps, key, v), k) =~= values_for(ps, k) + opt_val(key == k, v));
    } else {
        assert(values_for(ps, k) + opt_val(key == k, v) =~= values_for(ps, k));
    }
}

/// The decimal text of a number reads back as itself.
pub proof fn lemma_dec_wf(n: nat)
    ensures
        wf_value(dec(n)),
        forall|i: int| 0 <= i < dec(n).len() ==> #[trigger] is_digit(dec(n)[i]),
{
    lemma_dec(n);
    let d = dec(n);
    assert(is_digit(d[0]) && is_digit(d.last()));
    assert forall|i: int| 0 <= i < d.len() implies d[i] != '"' && d[i] != ',' by {
        assert(is_digit(d[i]));
    }
    lemma_plain_value(d);
}

/// Reading the decimal text of a 64-bit number gives it back.
pub proof fn lemma_u64_read(n: u64)
    ensures
        <u64 as AttrValue>::spec_value(dec(n as nat)) == Some(n),
{
    lemma_dec(n as nat);
}

/// No key or value of `ps` holds a line feed.
pub open spec fn pairs_no_lf(ps: Seq<(Seq<char>, Seq<char>)>) -> bool {
    forall|i: int| 0 <= i < ps.len() ==> no_lf(#[trigger] ps[i].0) && no_lf(ps[i].1)
}

/// One more pair without line feeds keeps a list without line feeds.
pub proof fn lemma_pairs_no_lf_push(ps: Seq<(Seq<char>, Seq<char>)>, p: (Seq<char>, Seq<char>))
    requires
        pairs_no_lf(ps),
        no_lf(p.0),
        no_lf(p.1),
    ensures
        pairs_no_lf(ps.push(p)),
{
    assert forall|i: int| 0 <= i < ps.push(p).len() implies no_lf(#[trigger] ps.push(p)[i].0)
        && no_lf(ps.push(p)[i].1) by {
        if i < ps.len() {
            assert(ps.push(p)[i] == ps[i]);
        }
    }
}

/// An optional pair without line feeds keeps a list without line feeds.
pub proof fn lemma_pairs_no_lf_opt_push(
    ps: Seq<(Seq<char>, Seq<char>)>,
    key: Seq<char>,
    v: Option<Seq<char>>,
)
    requires
        pairs_no_lf(ps),
        no_lf(key),
        v matches Some(x) ==> no_lf(x),
    ensures
        pairs_no_lf(opt_push(ps, key, v)),
{
    reveal(opt_push);
    if let Some(x) = v {
        lemma_pairs_no_lf_push(ps, (key, x));
    }
}

/// The attribute list of pairs without line feeds holds none.
pub proof fn lemma_attr_list_no_lf(ps: Seq<(Seq<char>, Seq<char>)>)
    requires
        pairs_no_lf(ps),
    ensures
        no_lf(attr_list(ps)),
    decreases ps.len(),
{
    if ps.len() == 1 {
        let p = pair_text(ps[0]);
        assert(no_lf(ps[0].0) && no_lf(ps[0].1));
        assert forall|j: int| 0 <= j < p.len() implies p[j] != '\n' by {
            if j < ps[0].0.len() {
                assert(p[j] == ps[0].0[j]);
            } else if j > ps[0].0.len() {
                assert(p[j] == ps[0].1[j - ps[0].0.len() - 1]);
            }
        }
    } else if ps.len() > 1 {
        let r = ps.drop_last();
        assert forall|i: int| 0 <= i < r.len() implies no_lf(#[trigger] r[i].0) && no_lf(r[i].1) by {
            assert(r[i] == ps[i]);
        }
        lemma_attr_list_no_lf(r);
        let a = attr_list(r);
        let l = ps.last();
        assert(no_lf(l.0) && no_lf(l.1)) by {
            assert(l == ps[ps.len() - 1]);
        }
        let p = pair_text(l);
        let t = attr_list(ps);
        assert(t == a + seq![','] + p);
        assert forall|j: int| 0 <= j < t.len() implies t[j] != '\n' by {
            if j < a.len() {
                assert(t[j] == a[j]);
            } else if j > a.len() {
                let k = j - a.len() - 1;
                assert(t[j] == p[k]);
                if k < l.0.len() {
                    assert(p[k] == l.0[k]);
                } else if k > l.0.len() {
                    assert(p[k] == l.1[k - l.0.len() - 1]);
                }
            }
        }
    }
}

/// Text without double quotes leaves the quote flag as it is; between double quotes it
/// has no `,` to find, and outside them only if it holds one.
pub proof fn lemma_unquoted_scan(s: Seq<char>, inside: bool)
    requires
        forall|i: int| 0 <= i < s.len() ==> s[i] != '"',
    ensures
        quote_state(s, inside) == inside,
        inside ==> find_comma(s, inside) is None,
        (forall|i: int| 0 <= i < s.len() ==> s[i] != ',') ==> find_comma(s, inside) is None,
    decreases s.len(),
{
    if s.len() > 0 {
        assert forall|i: int| 0 <= i < s.drop_first().len() implies s.drop_first()[i] != '"' by {
            assert(s.drop_first()[i] == s[i + 1]);
        }
        lemma_unquoted_scan(s.drop_first(), inside);
        if forall|i: int| 0 <= i < s.len() ==> s[i] != ',' {
            assert forall|i: int| 0 <= i < s.drop_first().len() implies s.drop_first()[i] != ',' by {
                assert(s.drop_first()[i] == s[i + 1]);
            }
        }
    }
}

/// A value without double quotes or `,`, whose ends are not white space, reads back as
/// itself.
pub proof fn lemma_plain_value(v: Seq<char>)
    requires
        v.len() > 0,
        !is_ws(v[0]),
        !is_ws(v.last()),
        forall|i: int| 0 <= i < v.len() ==> v[i] != '"' && v[i] != ',',
    ensures
        wf_value(v),
{
    lemma_trim_id(v);
    lemma_unquoted_scan(v, false);
}

/// A value between double quotes reads back as itself.
pub proof fn lemma_quoted_wf_value(x: Seq<char>)
    ensures
        wf_value(quoted(x)),
{
    let c = strip_quotes(x);
    lemma_strip_quotes_plain(x);
    let q = seq!['"'];
    let v = quoted(x);
    assert(v == q + c + q);
    assert(v[0] == '"');
    assert(v.last() == '"');
    lemma_trim_id(v);
    lemma_unquoted_scan(c, true);
    lemma_find_comma_concat(q, c + q, false);
    lemma_find_comma_concat(c, q, true);
    lemma_quote_state_concat(q, c + q, false);
    lemma_quote_state_concat(c, q, true);
    assert(q.drop_first().len() == 0);
    assert(find_comma(q.drop_first(), true) is None);
    assert(find_comma(q.drop_first(), false) is None);
    assert(find_comma(q, false) is None);
    assert(find_comma(q, true) is None);
    assert(quote_state(q.drop_first(), true) == true);
    assert(quote_state(q.drop_first(), false) == false);
    assert(quote_state(q, false) == true);
    assert(quote_state(q, true) == false);
    assert(q + (c + q) == v);
}

/// The key/value pairs of `v`, each taken by its characters.
pub open spec fn pair_views(v: Seq<(Vec<char>, Vec<char>)>) -> Seq<(Seq<char>, Seq<char>)> {
    Seq::new(v.len(), |i: int| (v[i].0@, v[i].1@))
}

/// The characters of each vector of `v`.
pub open spec fn char_views(v: Seq<Vec<char>>) -> Seq<Seq<char>> {
    Seq::new(v.len(), |i: int| v[i]@)
}

/// The values of the pairs of `ps` whose key is `k`, in order.
pub open spec fn values_for(ps: Seq<(Seq<char>, Seq<char>)>, k: Seq<char>) -> Seq<Seq<char>>
    decreases ps.len(),
{
    if ps.len() == 0 {
        seq![]
    } else if ps.last().0 == k {
        values_for(ps.drop_last(), k).push(ps.last().1)
    } else {
        values_for(ps.drop_last(), k)
    }
}

/// There are values for the key `k` exactly when a pair has the key `k`, and the value
/// of every such pair is among them.
pub proof fn lemma_values_for_keys(ps: Seq<(Seq<char>, Seq<char>)>, k: Seq<char>)
    ensures
        values_for(ps, k).len() > 0 <==> exists|i: int| 0 <= i < ps.len() && (#[trigger] ps[i]).0 == k,
        forall|i: int| 0 <= i < ps.len() && (#[trigger] ps[i]).0 == k ==> values_for(ps, k).contains(ps[i].1),
    decreases ps.len(),
{
    if ps.len() > 0 {
        let q = ps.drop_last();
        lemma_values_for_keys(q, k);
        assert forall|i: int| 0 <= i < q.len() implies #[trigger] q[i] == ps[i] by {}
        if exists|i: int| 0 <= i < q.len() && (#[trigger] q[i]).0 == k {
            let i = choose|i: int| 0 <= i < q.len() && (#[trigger] q[i]).0 == k;
            assert(ps[i].0 == k);
        }
        if exists|i: int| 0 <= i < ps.len() && (#[trigger] ps[i]).0 == k {
            let i = choose|i: int| 0 <= i < ps.len() && (#[trigger] ps[i]).0 == k;
            if i < q.len() {
                assert(q[i].0 == k);
            }
        }
        assert forall|i: int| 0 <= i < ps.len() && (#[trigger] ps[i]).0 == k implies values_for(
            ps,
            k,
        ).contains(ps[i].1) by {
            if i < q.len() {
                assert(q[i] == ps[i]);
                let j = choose|j: int| 0 <= j < values_for(q, k).len() && values_for(q, k)[j] == ps[i].1;
                if ps.last().0 == k {
                    assert(values_for(ps, k)[j] == ps[i].1);
                }
            } else {
                assert(ps[i] == ps.last());
                assert(values_for(ps, k).last() == ps[i].1);
            }
        }
    }
}

/// The value of the last pair of `ps` whose key is `k`: later pairs override earlier ones.
pub open spec fn last_for(ps: Seq<(Seq<char>, Seq<char>)>, k: Seq<char>) -> Option<Seq<char>> {
    let v = values_for(ps, k);
    if v.len() == 0 {
        None
    } else {
        Some(v.last())
    }
}

/// The last value of key `k` in `ps`, without its double quotes.
pub open spec fn quoted_attr(ps: Seq<(Seq<char>, Seq<char>)>, k: Seq<char>) -> Option<Seq<char>> {
    match last_for(ps, k) {
        Some(x) => Some(strip_quotes(x)),
        None => None,
    }
}

/// The key/value pairs of the attribute list `v`.
pub fn pairs_of(v: &Vec<char>) -> (res: Vec<(Vec<char>, Vec<char>)>)
    ensures
        pair_views(res@) == attr_pairs(v@),
{
    let r = all_pairs(v, 0);
    assert(v@.skip(0) == v@);
    assert(pair_views(r@) =~= attr_pairs(v@));
    r
}

/// The values of the pairs whose key is `key`, in order.
pub fn values_of(pairs: &Vec<(Vec<char>, Vec<char>)>, key: &str) -> (res: Vec<Vec<char>>)
    ensures
        char_views(res@) == values_for(pair_views(pairs@), key@),
{
    let ghost ps = pair_views(pairs@);
    let mut res: Vec<Vec<char>> = Vec::new();
    let mut i: usize = 0;
    while i < pairs.len()
        invariant
            i <= pairs.len(),
            ps == pair_views(pairs@),
            char_views(res@) == values_for(ps.take(i as int), key@),
        decreases pairs.len() - i,
    {
        assert(ps.take(i + 1).drop_last() == ps.take(i as int));
        assert(ps.take(i + 1).last() == ps[i as int]);
        if equals_str(&pairs[i].0, key) {
            let x = pairs[i].1.clone();
            let ghost before = res@;
            res.push(x);
            assert(char_views(res@) =~= char_views(before).push(ps[i as int].1));
        }
        i = i + 1;
    }
    assert(ps.take(pairs.len() as int) == ps);
    res
}

/// The text of the last value of `key`, without double quotes.
pub fn quoted_value(pairs: &Vec<(Vec<char>, Vec<char>)>, key: &str) -> (res: Option<String>)
    ensures
        match quoted_attr(pair_views(pairs@), key@) {
            Some(x) => res matches Some(s) && s@ == x,
            None => res is None,
        },
{
    let vals = values_of(pairs, key);
    if vals.len() == 0 {
        None
    } else {
        let last = vals.len() - 1;
        assert(char_views(vals@)[last as int] == vals@[last as int]@);
        Some(string_of(&unquote(&vals[last])))
    }
}

/// A value of an attribute list that can be read from its text.
pub trait AttrValue: Sized {
    /// The value that the text `s` denotes, if any.
    spec fn spec_value(s: Seq<char>) -> Option<Self>;

    /// Reads the value from its text.
    fn parse_value(v: &Vec<char>) -> (res: Result<Self, Error>)
        ensures
            res is Ok <==> Self::spec_value(v@) is Some,
            res matches Ok(x) ==> Self::spec_value(v@) == Some(x),
    ;
}

/// Every value of `vals` can be read as a `T`.
pub open spec fn all_parse<T: AttrValue>(vals: Seq<Seq<char>>) -> bool {
    forall|i: int| 0 <= i < vals.len() ==> (#[trigger] T::spec_value(vals[i])) is Some
}

/// The `T` that the last value of `vals` denotes, if there is a last value.
pub open spec fn last_parsed<T: AttrValue>(vals: Seq<Seq<char>>) -> Option<T> {
    if vals.len() == 0 {
        None
    } else {
        T::spec_value(vals.last())
    }
}

/// The values of key `k` in `ps` can all be read as a `T`.
pub open spec fn attr_ok<T: AttrValue>(ps: Seq<(Seq<char>, Seq<char>)>, k: Seq<char>) -> bool {
    all_parse::<T>(values_for(ps, k))
}

/// The `T` that the last value of key `k` in `ps` denotes.
pub open spec fn attr_val<T: AttrValue>(ps: Seq<(Seq<char>, Seq<char>)>, k: Seq<char>) -> Option<
    T,
> {
    last_parsed::<T>(values_for(ps, k))
}

/// Reads every value of key `key` as a `T` and gives the last one, or the first error.
pub fn parse_attr<T: AttrValue>(pairs: &Vec<(Vec<char>, Vec<char>)>, key: &str) -> (res: Result<
    Option<T>,
    Error,
>)
    ensures
        res is Ok <==> attr_ok::<T>(pair_views(pairs@), key@),
        res matches Ok(o) ==> o == attr_val::<T>(pair_views(pairs@), key@),
{
    let vals = values_of(pairs, key);
    let ghost cv = char_views(vals@);
    let mut last: Option<T> = None;
    let mut i: usize = 0;
    while i < vals.len()
        invariant
            i <= vals.len(),
            cv == char_views(vals@),
            cv == values_for(pair_views(pairs@), key@),
            forall|j: int| 0 <= j < i ==> (#[trigger] T::spec_value(cv[j])) is Some,
            i == 0 ==> last is None,
            i > 0 ==> last == T::spec_value(cv[i - 1]),
        decreases vals.len() - i,
    {
        assert(cv[i as int] == vals@[i as int]@);
        match T::parse_value(&vals[i]) {
            Ok(x) => {
                last = Some(x);
            },
            Err(e) => {
                assert(T::spec_value(cv[i as int]) is None);
                assert(!all_parse::<T>(cv));
                return Err(e);
            },
        }
        i = i + 1;
    }
    Ok(last)
}


impl AttrValue for u64 {
    open spec fn spec_value(s: Seq<char>) -> Option<u64> {
        match parse_unsigned(s, u64::MAX as nat) {
            Some(n) => Some(n as u64),
            None => None,
        }
    }

    fn parse_value(v: &Vec<char>) -> (res: Result<u64, Error>) {
        expect_unsigned(v, u64::MAX)
    }
}

/// `YES` is true and `NO` is false.
pub open spec fn yes_or_no(s: Seq<char>) -> Option<bool> {
    if s == "YES"@ {
        Some(true)
    } else if s == "NO"@ {
        Some(false)
    } else {
        None
    }
}

/// Reads `YES` or `NO`.
pub fn parse_yes_or_no(v: &Vec<char>) -> (res: Result<bool, Error>)
    ensures
        res is Ok <==> yes_or_no(v@) is Some,
        res matches Ok(b) ==> yes_or_no(v@) == Some(b),
        yes_or_no(v@) is None ==> res == Err::<bool, Error>(Error::InvalidInput),
{
    if equals_str(v, "YES") {
        Ok(true)
    } else if equals_str(v, "NO") {
        Ok(false)
    } else {
        Err(Error::InvalidInput)
    }
}

impl AttrValue for bool {
    open spec fn spec_value(s: Seq<char>) -> Option<bool> {
        yes_or_no(s)
    }

    fn parse_value(v: &Vec<char>) -> (res: Result<bool, Error>) {
        parse_yes_or_no(v)
    }
}

/// A value that the attribute list holds between double quotes.
#[derive(Debug, PartialEq, Eq)]
pub struct Quoted<T>(pub T);

impl<T: AttrValue> AttrValue for Quoted<T> {
    open spec fn spec_value(s: Seq<char>) -> Option<Quoted<T>> {
        match T::spec_value(strip_quotes(s)) {
            Some(x) => Some(Quoted(x)),
            None => None,
        }
    }

    fn parse_value(v: &Vec<char>) -> (res: Result<Quoted<T>, Error>) {
        let u = unquote(v);
        match T::parse_value(&u) {
            Ok(x) => Ok(Quoted(x)),
            Err(e) => Err(e),
        }
    }
}

} // verus!
