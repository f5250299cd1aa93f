//! Texts in dictionary order, and a map from texts to values that is walked in
//! that order, whatever the order its entries were put in.

use vstd::prelude::*;
use crate::text::{chars_of, views};

verus! {

/// Whether `a` and `b` agree on their first `n` characters.
pub open spec fn agree(a: Seq<char>, b: Seq<char>, n: int) -> bool {
    &&& n <= a.len()
    &&& n <= b.len()
    &&& forall|i: int| 0 <= i < n ==> a[i] == b[i]
}

/// Whether `a` and `b` part ways at position `n`, `a` to the smaller side: there
/// `a` has ended and `b` has not, or `a` has the smaller character.
pub open spec fn parts_below(a: Seq<char>, b: Seq<char>, n: int) -> bool {
    &&& 0 <= n
    &&& agree(a, b, n)
    &&& n < b.len()
    &&& (n == a.len() || a[n] < b[n])
}

/// Whether `a` stands before `b` in dictionary order by character code.
pub open spec fn before(a: Seq<char>, b: Seq<char>) -> bool {
    exists|n: int| parts_below(a, b, n)
}

/// No text stands before itself.
pub proof fn lemma_before_irreflexive(a: Seq<char>)
    ensures
        !before(a, a),
{
}

/// Dictionary order is transitive.
pub proof fn lemma_before_transitive(a: Seq<char>, b: Seq<char>, c: Seq<char>)
    requires
        before(a, b),
        before(b, c),
    ensures
        before(a, c),
{
    let n = choose|n: int| parts_below(a, b, n);
    let m = choose|m: int| parts_below(b, c, m);
    if n <= m {
        assert(parts_below(a, c, n));
    } else {
        assert(parts_below(a, c, m));
    }
}

/// Of two texts one stands before the other, or they are the same text.
pub proof fn lemma_before_total(a: Seq<char>, b: Seq<char>)
    ensures
        before(a, b) || a == b || before(b, a),
{
    lemma_before_total_from(a, b, 0);
}

proof fn lemma_before_total_from(a: Seq<char>, b: Seq<char>, n: int)
    requires
        0 <= n,
        agree(a, b, n),
    ensures
        before(a, b) || a == b || before(b, a),
    decreases a.len() - n,
{
    if n == a.len() {
        if n == b.len() {
            assert(a =~= b);
        } else {
            assert(parts_below(a, b, n));
        }
    } else if n == b.len() {
        assert(parts_below(b, a, n));
    } else if a[n] == b[n] {
        lemma_before_total_from(a, b, n + 1);
    } else if a[n] < b[n] {
        assert(parts_below(a, b, n));
    } else {
        assert(parts_below(b, a, n));
    }
}

/// A text does not stand both before and after another.
pub proof fn lemma_before_asymmetric(a: Seq<char>, b: Seq<char>)
    requires
        before(a, b),
    ensures
        !before(b, a),
        a != b,
{
    if before(b, a) {
        lemma_before_transitive(a, b, a);
    }
}

/// How two texts stand to each other.
#[derive(Debug, Clone, Copy, PartialEq, Eq, Structural)]
pub enum Standing {
    /// The first stands before the second.
    Before,
    /// They are the same text.
    Same,
    /// The first stands after the second.
    After,
}

/// Finds how `a` stands to `b` in dictionary order.
pub fn standing(a: &Vec<char>, b: &Vec<char>) -> (r: Standing)
    ensures
        r == Standing::Before <==> before(a@, b@),
        r == Standing::Same <==> a@ == b@,
        r == Standing::After <==> before(b@, a@),
{
    let mut n: usize = 0;
    let mut r = Standing::Same;
    let mut open = true;
    while open
        invariant
            n <= a.len(),
            n <= b.len(),
            open ==> agree(a@, b@, n as int),
            !open ==> (r == Standing::Before && before(a@, b@)) || (r == Standing::Same && a@
                == b@) || (r == Standing::After && before(b@, a@)),
        decreases (if open { 1int } else { 0int }), a.len() - n,
    {
        if n == a.len() {
            if n == b.len() {
                assert(a@ =~= b@);
                r = Standing::Same;
            } else {
                assert(parts_below(a@, b@, n as int));
                r = Standing::Before;
            }
            open = false;
        } else if n == b.len() {
            assert(parts_below(b@, a@, n as int));
            r = Standing::After;
            open = false;
        } else if a[n] == b[n] {
            n += 1;
        } else if a[n] < b[n] {
            assert(parts_below(a@, b@, n as int));
            r = Standing::Before;
            open = false;
        } else {
            assert(parts_below(b@, a@, n as int));
            r = Standing::After;
            open = false;
        }
    }
    proof {
        if before(a@, b@) {
            lemma_before_asymmetric(a@, b@);
        }
        if before(b@, a@) {
            lemma_before_asymmetric(b@, a@);
        }
    }
    r
}

/// Whether the texts of `keys` stand in strictly rising dictionary order.
pub open spec fn rising(keys: Seq<Seq<char>>) -> bool {
    forall|i: int, j: int| 0 <= i < j < keys.len() ==> before(#[trigger] keys[i], #[trigger] keys[j])
}

/// In rising order no text occurs twice.
pub proof fn lemma_rising_distinct(keys: Seq<Seq<char>>, i: int, j: int)
    requires
        rising(keys),
        0 <= i < keys.len(),
        0 <= j < keys.len(),
        keys[i] == keys[j],
    ensures
        i == j,
{
    if i < j {
        lemma_before_irreflexive(keys[i]);
    }
    if j < i {
        lemma_before_irreflexive(keys[j]);
    }
}

/// Two rising rows of the same texts are the same row.
pub proof fn lemma_rising_unique(a: Seq<Seq<char>>, b: Seq<Seq<char>>)
    requires
        rising(a),
        rising(b),
        forall|k: Seq<char>| a.contains(k) <==> b.contains(k),
    ensures
        a == b,
    decreases a.len(),
{
    if a.len() == 0 {
        if b.len() > 0 {
            assert(b.contains(b[0]));
            assert(a.contains(b[0]));
        }
        assert(a =~= b);
    } else {
        assert(a.contains(a[0]));
        assert(b.contains(a[0]));
        let j = choose|j: int| 0 <= j < b.len() && b[j] == a[0];
        assert(b.contains(b[0]));
        assert(a.contains(b[0]));
        let i = choose|i: int| 0 <= i < a.len() && a[i] == b[0];
        if j > 0 {
            assert(before(b[0], b[j]));
            if i > 0 {
                assert(before(a[0], a[i]));
                lemma_before_transitive(b[0], a[0], b[0]);
            }
            lemma_before_irreflexive(b[0]);
        }
        assert(a[0] == b[0]);
        let ta = a.drop_first();
        let tb = b.drop_first();
        assert forall|k: Seq<char>| ta.contains(k) <==> tb.contains(k) by {
            if ta.contains(k) {
                let x = choose|x: int| 0 <= x < ta.len() && ta[x] == k;
                assert(a[x + 1] == k);
                assert(a.contains(k));
                assert(before(a[0], a[x + 1]));
                lemma_before_asymmetric(a[0], k);
                let y = choose|y: int| 0 <= y < b.len() && b[y] == k;
                assert(y > 0);
                assert(tb[y - 1] == k);
            }
            if tb.contains(k) {
                let x = choose|x: int| 0 <= x < tb.len() && tb[x] == k;
                assert(b[x + 1] == k);
                assert(b.contains(k));
                assert(before(b[0], b[x + 1]));
                lemma_before_asymmetric(b[0], k);
                let y = choose|y: int| 0 <= y < a.len() && a[y] == k;
                assert(y > 0);
                assert(ta[y - 1] == k);
            }
        }
        assert(rising(ta)) by {
            assert forall|x: int, y: int| 0 <= x < y < ta.len() implies before(
                #[trigger] ta[x],
                #[trigger] ta[y],
            ) by {
                assert(before(a[x + 1], a[y + 1]));
            }
        }
        assert(rising(tb)) by {
            assert forall|x: int, y: int| 0 <= x < y < tb.len() implies before(
                #[trigger] tb[x],
                #[trigger] tb[y],
            ) by {
                assert(before(b[x + 1], b[y + 1]));
            }
        }
        lemma_rising_unique(ta, tb);
        assert(a =~= seq![a[0]] + ta);
        assert(b =~= seq![b[0]] + tb);
    }
}

/// A map from texts to values, kept in rising dictionary order of its keys.
pub struct SortedMap<V> {
    keys: Vec<String>,
    values: Vec<V>,
}

impl<V> SortedMap<V> {
    /// What holds of every map: one value per key, and the keys in rising order.
    pub closed spec fn wf(self) -> bool {
        &&& self.keys@.len() == self.values@.len()
        &&& rising(views(self.keys@))
    }

    #[verifier::type_invariant]
    spec fn valid(self) -> bool {
        self.wf()
    }

    /// The keys, in the order the map is walked.
    pub closed spec fn keys(self) -> Seq<Seq<char>> {
        views(self.keys@)
    }

    /// The values, in the order the map is walked: `values()[i]` belongs to `keys()[i]`.
    pub closed spec fn values(self) -> Seq<V> {
        self.values@
    }

    /// The map as a set of entries, without any order.
    pub open spec fn entries(self) -> Map<Seq<char>, V> {
        Map::new(
            |k: Seq<char>| self.keys().contains(k),
            |k: Seq<char>| self.values()[self.keys().index_of(k)],
        )
    }

    /// A well-formed map has as many values as keys, and rising keys.
    pub proof fn lemma_wf(self)
        requires
            self.wf(),
        ensures
            self.keys().len() == self.values().len(),
            rising(self.keys()),
    {
    }

    /// The order in which a map is walked depends on its entries alone: two maps
    /// with the same entries have the same keys and values in the same order.
    pub proof fn lemma_walk_is_canonical(self, other: Self)
        requires
            self.wf(),
            other.wf(),
            self.entries() == other.entries(),
        ensures
            self.keys() == other.keys(),
            self.values() == other.values(),
    {
        assert forall|k: Seq<char>| self.keys().contains(k) <==> other.keys().contains(k) by {
            assert(self.entries().dom().contains(k) <==> self.keys().contains(k));
            assert(other.entries().dom().contains(k) <==> other.keys().contains(k));
        }
        lemma_rising_unique(self.keys(), other.keys());
        assert forall|i: int| 0 <= i < self.values().len() implies self.values()[i]
            == other.values()[i] by {
            let k = self.keys()[i];
            assert(self.keys().contains(k));
            let a = self.keys().index_of(k);
            lemma_rising_distinct(self.keys(), a, i);
            let b = other.keys().index_of(k);
            lemma_rising_distinct(other.keys(), b, i);
            assert(self.entries()[k] == self.values()[a]);
            assert(other.entries()[k] == other.values()[b]);
        }
        assert(self.values() =~= other.values());
    }

    /// A map without entries.
    pub fn new() -> (m: Self)
        ensures
            m.keys().len() == 0,
            m.values().len() == 0,
            m.wf(),
    {
        SortedMap { keys: Vec::new(), values: Vec::new() }
    }

    /// The number of entries.
    pub fn len(&self) -> (n: usize)
        ensures
            n == self.keys().len(),
            n == self.values().len(),
            self.wf(),
    {
        proof {
            use_type_invariant(self);
        }
        self.keys.len()
    }

    /// The `i`-th key in walking order.
    pub fn key_at(&self, i: usize) -> (k: &str)
        requires
            i < self.keys().len(),
        ensures
            k@ == self.keys()[i as int],
    {
        self.keys[i].as_str()
    }

    /// The `i`-th value in walking order.
    pub fn value_at(&self, i: usize) -> (v: &V)
        requires
            i < self.values().len(),
        ensures
            *v == self.values()[i as int],
    {
        &self.values[i]
    }

    /// Where `key` is, or where it would have to be put: the first position whose
    /// key does not stand before `key`, and whether that key is `key` itself.
    fn locate(&self, key: &Vec<char>) -> (r: (usize, bool))
        ensures
            r.0 <= self.keys().len(),
            forall|i: int| 0 <= i < r.0 ==> before(#[trigger] self.keys()[i], key@),
            r.1 ==> r.0 < self.keys().len() && self.keys()[r.0 as int] == key@,
            !r.1 ==> forall|i: int|
                r.0 <= i < self.keys().len() ==> before(key@, #[trigger] self.keys()[i]),
    {
        proof {
            use_type_invariant(self);
        }
        let mut i: usize = 0;
        while i < self.keys.len()
            invariant
                i <= self.keys.len(),
                self.wf(),
                forall|j: int| 0 <= j < i ==> before(#[trigger] self.keys()[j], key@),
            decreases self.keys.len() - i,
        {
            let here = chars_of(self.keys[i].as_str());
            match standing(&here, key) {
                Standing::Before => {},
                Standing::Same => {
                    return (i, true);
                },
                Standing::After => {
                    proof {
                        assert forall|j: int| i <= j < self.keys().len() implies before(
                            key@,
                            #[trigger] self.keys()[j],
                        ) by {
                            if j > i {
                                assert(before(self.keys()[i as int], self.keys()[j]));
                                lemma_before_transitive(key@, self.keys()[i as int], self.keys()[j]);
                            }
                        }
                    }
                    return (i, false);
                },
            }
            i += 1;
        }
        (i, false)
    }

    /// The value under `key`, if the map has that key.
    pub fn get(&self, key: &str) -> (r: Option<&V>)
        ensures
            match r {
                Some(v) => self.keys().contains(key@) && *v == self.entries()[key@],
                None => !self.keys().contains(key@),
            },
    {
        proof {
            use_type_invariant(self);
        }
        let wanted = chars_of(key);
        let (at, found) = self.locate(&wanted);
        if found {
            proof {
                assert(self.keys().contains(key@));
                lemma_rising_distinct(self.keys(), self.keys().index_of(key@), at as int);
            }
            Some(&self.values[at])
        } else {
            proof {
                if self.keys().contains(key@) {
                    let i = self.keys().index_of(key@);
                    lemma_before_irreflexive(key@);
                }
            }
            None
        }
    }

    /// Puts `value` under `key`, in place of an earlier value under that key.
    pub fn insert(&mut self, key: String, value: V)
        ensures
            final(self).wf(),
            final(self).entries() == old(self).entries().insert(key@, value),
    {
        proof {
            use_type_invariant(&*self);
        }
        let wanted = chars_of(key.as_str());
        let (at, found) = self.locate(&wanted);
        let ghost before_keys = self.keys();
        let ghost before_values = self.values();
        let ghost before_entries = self.entries();
        let mut taken = SortedMap::new();
        core::mem::swap(self, &mut taken);
        let SortedMap { keys, values } = taken;
        let mut keys = keys;
        let mut values = values;
        if found {
            values.set(at, value);
        } else {
            keys.insert(at, key);
            values.insert(at, value);
        }
        proof {
            let nk = views(keys@);
            assert(rising(nk)) by {
                assert forall|i: int, j: int| 0 <= i < j < nk.len() implies before(
                    #[trigger] nk[i],
                    #[trigger] nk[j],
                ) by {
                    if found {
                        assert(nk[i] == before_keys[i] && nk[j] == before_keys[j]);
                    } else {
                        let oi = if i < at { i } else { i - 1 };
                        let oj = if j < at { j } else { j - 1 };
                        if i == at {
                            assert(nk[j] == before_keys[oj]);
                        } else if j == at {
                            assert(nk[i] == before_keys[oi]);
                        } else {
                            assert(nk[i] == before_keys[oi] && nk[j] == before_keys[oj]);
                        }
                    }
                }
            }
        }
        *self = SortedMap { keys, values };
        proof {
            let nk = self.keys();
            let nv = self.values();
            assert forall|k: Seq<char>| #[trigger] self.entries().dom().contains(k)
                <==> before_entries.insert(key@, value).dom().contains(k) by {
                if before_keys.contains(k) {
                    let o = before_keys.index_of(k);
                    if found {
                        assert(nk[o] == k);
                    } else {
                        let n = if o < at { o } else { o + 1 };
                        assert(nk[n] == k);
                    }
                }
                if k == key@ {
                    assert(nk[at as int] == k);
                }
                if nk.contains(k) && k != key@ {
                    let n = nk.index_of(k);
                    if found {
                        assert(before_keys[n] == k);
                    } else {
                        let o = if n < at { n } else { n - 1 };
                        assert(before_keys[o] == k);
                    }
                }
            }
            assert forall|k: Seq<char>| #[trigger] self.entries().dom().contains(k) implies
                self.entries()[k] == before_entries.insert(key@, value)[k] by {
                let n = nk.index_of(k);
                assert(nk[n] == k);
                if k == key@ {
                    lemma_rising_distinct(nk, n, at as int);
                } else {
                    if found {
                        assert(before_keys[n] == k);
                        lemma_rising_distinct(before_keys, before_keys.index_of(k), n);
                    } else {
                        if n == at {
                            assert(false);
                        }
                        let o = if n < at { n } else { n - 1 };
                        assert(before_keys[o] == k);
                        lemma_rising_distinct(before_keys, before_keys.index_of(k), o);
                    }
                }
            }
            assert(self.entries() =~= before_entries.insert(key@, value));
        }
    }
}

} // verus!
