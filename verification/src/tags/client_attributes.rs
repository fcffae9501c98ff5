use vstd::prelude::*;

use crate::text::{chars_of, push_chars, push_string, string_of, starts_with};
use crate::types::{value_text, Value, ValueView};

verus! {

/// `a` comes before `b` in the order of their characters (the order of `str`).
pub open spec fn text_lt(a: Seq<char>, b: Seq<char>) -> bool
    decreases a.len(),
{
    if a.len() == 0 {
        b.len() > 0
    } else if b.len() == 0 {
        false
    } else if a[0] != b[0] {
        a[0] < b[0]
    } else {
        text_lt(a.drop_first(), b.drop_first())
    }
}

/// The order of texts is a strict total order.
pub proof fn lemma_text_lt_order(a: Seq<char>, b: Seq<char>, c: Seq<char>)
    ensures
        !text_lt(a, a),
        text_lt(a, b) ==> !text_lt(b, a),
        a != b ==> text_lt(a, b) || text_lt(b, a),
        text_lt(a, b) && text_lt(b, c) ==> text_lt(a, c),
    decreases a.len(),
{
    if a.len() > 0 && b.len() > 0 && c.len() > 0 {
        lemma_text_lt_order(a.drop_first(), b.drop_first(), c.drop_first());
    }
    if a.len() > 0 && b.len() > 0 {
        lemma_text_lt_order(a.drop_first(), b.drop_first(), b.drop_first());
        if a != b && a[0] == b[0] {
            assert(a.drop_first() != b.drop_first()) by {
                if a.drop_first() == b.drop_first() {
                    assert(a =~= seq![a[0]] + a.drop_first());
                    assert(b =~= seq![b[0]] + b.drop_first());
                }
            }
        }
    }
    if a.len() > 0 {
        lemma_text_lt_order(a.drop_first(), a.drop_first(), a.drop_first());
    }
    if a.len() == 0 && b.len() == 0 {
        assert(a =~= b);
    }
}

/// The entries `s` with `(k, v)` added: it takes the place of an entry with key `k`, or
/// goes before the first entry whose key comes after `k`.
pub open spec fn spec_insert(s: Seq<(Seq<char>, ValueView)>, k: Seq<char>, v: ValueView) -> Seq<
    (Seq<char>, ValueView),
>
    decreases s.len(),
{
    if s.len() == 0 {
        seq![(k, v)]
    } else if s[0].0 == k {
        seq![(k, v)] + s.drop_first()
    } else if text_lt(k, s[0].0) {
        seq![(k, v)] + s
    } else {
        seq![s[0]] + spec_insert(s.drop_first(), k, v)
    }
}

/// The keys of `s` are in strictly increasing order.
pub open spec fn sorted_keys(s: Seq<(Seq<char>, ValueView)>) -> bool {
    forall|i: int, j: int| 0 <= i < j < s.len() ==> text_lt(#[trigger] s[i].0, #[trigger] s[j].0)
}

proof fn lemma_insert_skip(s: Seq<(Seq<char>, ValueView)>, k: Seq<char>, v: ValueView, i: int)
    requires
        0 <= i <= s.len(),
        forall|j: int| 0 <= j < i ==> s[j].0 != k && !text_lt(k, #[trigger] s[j].0),
    ensures
        spec_insert(s, k, v) == s.take(i) + spec_insert(s.skip(i), k, v),
    decreases i,
{
    if i == 0 {
        assert(s.skip(0) =~= s);
        assert(s.take(0) + spec_insert(s, k, v) =~= spec_insert(s, k, v));
    } else {
        assert(s[0].0 != k && !text_lt(k, s[0].0));
        lemma_insert_skip(s.drop_first(), k, v, i - 1);
        assert(s.drop_first().take(i - 1) =~= s.take(i).drop_first());
        assert(s.drop_first().skip(i - 1) =~= s.skip(i));
        assert(seq![s[0]] + (s.drop_first().take(i - 1) + spec_insert(s.skip(i), k, v)) =~= s.take(i)
            + spec_insert(s.skip(i), k, v));
    }
}

/// Adding an entry keeps the keys in strictly increasing order.
pub proof fn lemma_insert_sorted(s: Seq<(Seq<char>, ValueView)>, k: Seq<char>, v: ValueView)
    requires
        sorted_keys(s),
    ensures
        sorted_keys(spec_insert(s, k, v)),
        forall|i: int|
            0 <= i < spec_insert(s, k, v).len() ==> #[trigger] spec_insert(s, k, v)[i].0 == k || exists|
                j: int,
            |
                0 <= j < s.len() && s[j].0 == spec_insert(s, k, v)[i].0,
    decreases s.len(),
{
    let r = spec_insert(s, k, v);
    if s.len() == 0 {
    } else if s[0].0 == k {
        assert forall|i: int, j: int| 0 <= i < j < r.len() implies text_lt(
            #[trigger] r[i].0,
            #[trigger] r[j].0,
        ) by {
            if i == 0 {
                assert(r[j] == s[j]);
                assert(text_lt(s[0].0, s[j].0));
            } else {
                assert(r[i] == s[i] && r[j] == s[j]);
            }
        }
        assert forall|i: int| 0 <= i < r.len() implies #[trigger] r[i].0 == k || exists|j: int|
            0 <= j < s.len() && s[j].0 == r[i].0 by {
            if i > 0 {
                assert(r[i] == s[i]);
            }
        }
    } else if text_lt(k, s[0].0) {
        assert forall|i: int, j: int| 0 <= i < j < r.len() implies text_lt(
            #[trigger] r[i].0,
            #[trigger] r[j].0,
        ) by {
            if i == 0 {
                assert(r[j] == s[j - 1]);
                if j - 1 > 0 {
                    assert(text_lt(s[0].0, s[j - 1].0));
                    lemma_text_lt_order(k, s[0].0, s[j - 1].0);
                }
            } else {
                assert(r[i] == s[i - 1] && r[j] == s[j - 1]);
            }
        }
        assert forall|i: int| 0 <= i < r.len() implies #[trigger] r[i].0 == k || exists|j: int|
            0 <= j < s.len() && s[j].0 == r[i].0 by {
            if i > 0 {
                assert(r[i] == s[i - 1]);
            }
        }
    } else {
        let t = s.drop_first();
        assert(sorted_keys(t)) by {
            assert forall|i: int, j: int| 0 <= i < j < t.len() implies text_lt(
                #[trigger] t[i].0,
                #[trigger] t[j].0,
            ) by {
                assert(t[i] == s[i + 1] && t[j] == s[j + 1]);
            }
        }
        lemma_insert_sorted(t, k, v);
        let rt = spec_insert(t, k, v);
        lemma_text_lt_order(s[0].0, k, k);
        assert(text_lt(s[0].0, k));
        assert forall|i: int| 0 <= i < r.len() implies #[trigger] r[i].0 == k || exists|j: int|
            0 <= j < s.len() && s[j].0 == r[i].0 by {
            if i == 0 {
                assert(r[0] == s[0]);
            } else {
                assert(r[i] == rt[i - 1]);
                if rt[i - 1].0 != k {
                    let j = choose|j: int| 0 <= j < t.len() && t[j].0 == rt[i - 1].0;
                    assert(s[j + 1] == t[j]);
                }
            }
        }
        assert forall|i: int, j: int| 0 <= i < j < r.len() implies text_lt(
            #[trigger] r[i].0,
            #[trigger] r[j].0,
        ) by {
            if i == 0 {
                assert(r[0] == s[0]);
                assert(r[j] == rt[j - 1]);
                if rt[j - 1].0 == k {
                } else {
                    let m = choose|m: int| 0 <= m < t.len() && t[m].0 == rt[j - 1].0;
                    assert(t[m] == s[m + 1]);
                    assert(text_lt(s[0].0, s[m + 1].0));
                }
            } else {
                assert(r[i] == rt[i - 1] && r[j] == rt[j - 1]);
            }
        }
    }
}

/// The text of the client attributes `s`: `,KEY=VALUE` for each.
pub open spec fn client_text(s: Seq<(Seq<char>, ValueView)>) -> Seq<char>
    decreases s.len(),
{
    if s.len() == 0 {
        seq![]
    } else {
        client_text(s.drop_last()) + seq![','] + s.last().0 + seq!['='] + value_text(s.last().1)
    }
}

/// The client attributes of an `#EXT-X-DATERANGE` tag (keys that start with `X-`),
/// ordered by key.
#[derive(Debug, Clone, PartialEq, Eq, PartialOrd, Ord, Hash)]
pub struct ClientAttributes {
    entries: Vec<(String, Value)>,
}

impl View for ClientAttributes {
    type V = Seq<(Seq<char>, ValueView)>;

    closed spec fn view(&self) -> Seq<(Seq<char>, ValueView)> {
        Seq::new(self.entries@.len(), |i: int| (self.entries@[i].0@, self.entries@[i].1@))
    }
}

/// The order of two texts.
#[derive(Debug, Clone, Copy, PartialEq, Eq, Structural)]
pub enum TextOrder {
    /// The first comes first.
    Before,
    /// They are the same.
    Same,
    /// The first comes last.
    After,
}

/// The order of `a` and `b`.
pub fn text_order(a: &Vec<char>, b: &Vec<char>) -> (res: TextOrder)
    ensures
        res == TextOrder::Same <==> a@ == b@,
        res == TextOrder::Before <==> text_lt(a@, b@),
        res == TextOrder::After <==> text_lt(b@, a@),
{
    let mut i: usize = 0;
    while i < a.len() && i < b.len() && a[i] == b[i]
        invariant
            i <= a.len(),
            i <= b.len(),
            forall|j: int| 0 <= j < i ==> a@[j] == b@[j],
        decreases a.len() - i,
    {
        i = i + 1;
    }
    proof {
        lemma_text_lt_skip(a@, b@, i as int);
        lemma_text_lt_order(a@, b@, b@);
    }
    if i < a.len() && i < b.len() {
        assert(a@[i as int] != b@[i as int]);
        if a[i] < b[i] {
            TextOrder::Before
        } else {
            TextOrder::After
        }
    } else if i < a.len() {
        TextOrder::After
    } else if i < b.len() {
        TextOrder::Before
    } else {
        assert(a@ =~= b@);
        TextOrder::Same
    }
}

proof fn lemma_text_lt_skip(a: Seq<char>, b: Seq<char>, i: int)
    requires
        0 <= i <= a.len(),
        i <= b.len(),
        forall|j: int| 0 <= j < i ==> a[j] == b[j],
    ensures
        text_lt(a, b) == text_lt(a.skip(i), b.skip(i)),
        text_lt(b, a) == text_lt(b.skip(i), a.skip(i)),
    decreases i,
{
    if i > 0 {
        lemma_text_lt_skip(a.drop_first(), b.drop_first(), i - 1);
        assert(a.drop_first().skip(i - 1) =~= a.skip(i));
        assert(b.drop_first().skip(i - 1) =~= b.skip(i));
    } else {
        assert(a.skip(0) =~= a);
        assert(b.skip(0) =~= b);
    }
}

impl ClientAttributes {
    /// No client attribute.
    pub fn new() -> (res: ClientAttributes)
        ensures
            res@ == Seq::<(Seq<char>, ValueView)>::empty(),
    {
        let res = ClientAttributes { entries: Vec::new() };
        assert(res@ =~= Seq::<(Seq<char>, ValueView)>::empty());
        res
    }

    /// The number of attributes.
    pub fn len(&self) -> (res: usize)
        ensures
            res == self@.len(),
    {
        self.entries.len()
    }

    /// Whether there is no attribute.
    pub fn is_empty(&self) -> (res: bool)
        ensures
            res == (self@.len() == 0),
    {
        self.entries.len() == 0
    }

    /// The attribute at position `i`, in key order.
    pub fn get(&self, i: usize) -> (res: &(String, Value))
        requires
            i < self@.len(),
        ensures
            (res.0@, res.1@) == self@[i as int],
    {
        &self.entries[i]
    }

    /// Sets the attribute `key` to `value`, in key order.
    pub fn insert(&mut self, key: String, value: Value)
        ensures
            final(self)@ == spec_insert(old(self)@, key@, value@),
    {
        let ghost s = self@;
        let kv = chars_of(key.as_str());
        let mut i: usize = 0;
        while i < self.entries.len()
            invariant
                i <= self.entries@.len(),
                s == self@,
                s == old(self)@,
                kv@ == key@,
                self@ == Seq::new(
                    self.entries@.len(),
                    |j: int| (self.entries@[j].0@, self.entries@[j].1@),
                ),
                forall|j: int| 0 <= j < i ==> s[j].0 != key@ && !text_lt(key@, #[trigger] s[j].0),
            decreases self.entries@.len() - i,
        {
            let ek = chars_of(self.entries[i].0.as_str());
            assert(s[i as int].0 == ek@);
            match text_order(&kv, &ek) {
                TextOrder::Same => {
                    proof {
                        lemma_insert_skip(s, key@, value@, i as int);
                        assert(s.skip(i as int)[0] == s[i as int]);
                        assert(spec_insert(s.skip(i as int), key@, value@) == seq![(key@, value@)]
                            + s.skip(i as int).drop_first());
                    }
                    self.entries.set(i, (key, value));
                    proof {
                        assert(self@ =~= s.take(i as int) + (seq![(key@, value@)] + s.skip(
                            i as int,
                        ).drop_first()));
                    }
                    return ;
                },
                TextOrder::Before => {
                    proof {
                        lemma_insert_skip(s, key@, value@, i as int);
                        assert(s.skip(i as int)[0] == s[i as int]);
                    }
                    self.entries.insert(i, (key, value));
                    proof {
                        assert(self@ =~= s.take(i as int) + (seq![(key@, value@)] + s.skip(
                            i as int,
                        )));
                    }
                    return ;
                },
                TextOrder::After => {
                    proof {
                        lemma_text_lt_order(key@, ek@, ek@);
                    }
                },
            }
            i = i + 1;
        }
        proof {
            lemma_insert_skip(s, key@, value@, i as int);
            assert(s.skip(i as int).len() == 0);
            assert(s.take(i as int) == s);
        }
        self.entries.push((key, value));
        assert(self@ =~= s + seq![(key@, value@)]);
    }

    /// The text of the attributes: `,KEY=VALUE` for each, in key order.
    pub open spec fn spec_to_string(self) -> Seq<char> {
        client_text(self@)
    }

    /// Appends the text of the attributes to `out`.
    pub fn write(&self, out: &mut Vec<char>)
        ensures
            final(out)@ == old(out)@ + self.spec_to_string(),
    {
        let ghost start = out@;
        let mut i: usize = 0;
        while i < self.entries.len()
            invariant
                i <= self.entries@.len(),
                out@ == start + client_text(self@.take(i as int)),
            decreases self.entries@.len() - i,
        {
            let ghost t = self@.take(i + 1);
            assert(t.drop_last() == self@.take(i as int));
            assert(t.last() == self@[i as int]);
            out.push(',');
            push_string(out, &self.entries[i].0);
            out.push('=');
            self.entries[i].1.write(out);
            assert(out@ =~= start + client_text(t));
            i = i + 1;
        }
        assert(self@.take(i as int) == self@);
    }
}

} // verus!
