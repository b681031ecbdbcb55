//! A finite map from relative paths to values, kept as a vector of entries
//! whose keys are strictly increasing in path order. It stands where an
//! ordered map keyed by `String` would: every key occurs once, and entries are
//! visited in increasing key order.
use crate::text::{
    chars_of, compare_chars, lemma_seq_lt_asymmetric, lemma_seq_lt_irreflexive,
    lemma_seq_lt_total, lemma_seq_lt_transitive, seq_lt, PathOrder,
};
use vstd::prelude::*;

verus! {

/// The map described by a sequence of (key, value) entries; later entries win.
pub open spec fn map_of<V>(s: Seq<(Seq<char>, V)>) -> Map<Seq<char>, V>
    decreases s.len(),
{
    if s.len() == 0 {
        Map::empty()
    } else {
        map_of(s.drop_last()).insert(s.last().0, s.last().1)
    }
}

/// Keys strictly increasing in path order (so also free of duplicates).
pub open spec fn strictly_sorted(keys: Seq<Seq<char>>) -> bool {
    forall|i: int, j: int| 0 <= i < j < keys.len() ==> seq_lt(#[trigger] keys[i], #[trigger] keys[j])
}

pub proof fn lemma_map_of_contains<V>(s: Seq<(Seq<char>, V)>, k: Seq<char>)
    ensures
        map_of(s).contains_key(k) <==> exists|i: int| 0 <= i < s.len() && (#[trigger] s[i]).0 == k,
    decreases s.len(),
{
    if s.len() > 0 {
        lemma_map_of_contains(s.drop_last(), k);
        if map_of(s).contains_key(k) && s.last().0 != k {
            let i = choose|i: int| 0 <= i < s.drop_last().len() && (#[trigger] s.drop_last()[i]).0 == k;
            assert(s[i] == s.drop_last()[i]);
        }
        if exists|i: int| 0 <= i < s.len() && (#[trigger] s[i]).0 == k {
            let i = choose|i: int| 0 <= i < s.len() && (#[trigger] s[i]).0 == k;
            if i < s.len() - 1 {
                assert(s.drop_last()[i] == s[i]);
            }
        }
    }
}

pub proof fn lemma_map_of_value<V>(s: Seq<(Seq<char>, V)>, i: int)
    requires
        0 <= i < s.len(),
        strictly_sorted(s.map_values(|e: (Seq<char>, V)| e.0)),
    ensures
        map_of(s).contains_key(s[i].0),
        map_of(s)[s[i].0] == s[i].1,
    decreases s.len(),
{
    let ks = s.map_values(|e: (Seq<char>, V)| e.0);
    if i < s.len() - 1 {
        let t = s.drop_last();
        let kt = t.map_values(|e: (Seq<char>, V)| e.0);
        assert forall|a: int, b: int| 0 <= a < b < kt.len() implies seq_lt(#[trigger] kt[a], #[trigger] kt[b]) by {
            assert(kt[a] == ks[a]);
            assert(kt[b] == ks[b]);
        }
        lemma_map_of_value(t, i);
        assert(ks[i] == s[i].0);
        assert(ks[s.len() - 1] == s.last().0);
        assert(seq_lt(ks[i], ks[s.len() - 1]));
        lemma_seq_lt_irreflexive(s[i].0);
        assert(t[i] == s[i]);
    }
}

/// Two strictly sorted key sequences holding the same keys are equal.
pub proof fn lemma_sorted_unique(a: Seq<Seq<char>>, b: Seq<Seq<char>>)
    requires
        strictly_sorted(a),
        strictly_sorted(b),
        forall|k: Seq<char>| a.contains(k) <==> b.contains(k),
    ensures
        a == b,
    decreases a.len() + b.len(),
{
    if a.len() == 0 {
        if b.len() > 0 {
            assert(b.contains(b[0]));
        }
        assert(a =~= b);
    } else if b.len() == 0 {
        assert(a.contains(a[0]));
    } else {
        // The first elements are both the least key.
        assert(a.contains(a[0]));
        assert(b.contains(b[0]));
        let ja = choose|j: int| 0 <= j < b.len() && b[j] == a[0];
        let jb = choose|j: int| 0 <= j < a.len() && a[j] == b[0];
        if ja > 0 {
            assert(seq_lt(b[0], b[ja]));
            if jb > 0 {
                assert(seq_lt(a[0], a[jb]));
                lemma_seq_lt_asymmetric(a[0], b[0]);
            } else {
                lemma_seq_lt_irreflexive(a[0]);
            }
        }
        assert(a[0] == b[0]);
        let ta = a.drop_first();
        let tb = b.drop_first();
        assert forall|k: Seq<char>| ta.contains(k) <==> tb.contains(k) by {
            if ta.contains(k) {
                let i = choose|i: int| 0 <= i < ta.len() && ta[i] == k;
                assert(a[i + 1] == k);
                assert(seq_lt(a[0], a[i + 1]));
                lemma_seq_lt_irreflexive(k);
                assert(a.contains(k));
                let j = choose|j: int| 0 <= j < b.len() && b[j] == k;
                assert(j != 0);
                assert(tb[j - 1] == k);
            }
            if tb.contains(k) {
                let i = choose|i: int| 0 <= i < tb.len() && tb[i] == k;
                assert(b[i + 1] == k);
                assert(seq_lt(b[0], b[i + 1]));
                lemma_seq_lt_irreflexive(k);
                assert(b.contains(k));
                let j = choose|j: int| 0 <= j < a.len() && a[j] == k;
                assert(j != 0);
                assert(ta[j - 1] == k);
            }
        }
        assert forall|x: int, y: int| 0 <= x < y < ta.len() implies seq_lt(#[trigger] ta[x], #[trigger] ta[y]) by {
            assert(ta[x] == a[x + 1]);
            assert(ta[y] == a[y + 1]);
        }
        assert forall|x: int, y: int| 0 <= x < y < tb.len() implies seq_lt(#[trigger] tb[x], #[trigger] tb[y]) by {
            assert(tb[x] == b[x + 1]);
            assert(tb[y] == b[y + 1]);
        }
        lemma_sorted_unique(ta, tb);
        assert(a =~= seq![a[0]] + ta);
        assert(b =~= seq![b[0]] + tb);
    }
}

/// `ks` with `x` inserted at its place in path order.
pub open spec fn insert_sorted(ks: Seq<Seq<char>>, x: Seq<char>) -> Seq<Seq<char>>
    decreases ks.len(),
{
    if ks.len() == 0 {
        seq![x]
    } else if seq_lt(x, ks[0]) {
        seq![x] + ks
    } else {
        seq![ks[0]] + insert_sorted(ks.drop_first(), x)
    }
}

pub proof fn lemma_insert_sorted(ks: Seq<Seq<char>>, x: Seq<char>)
    requires
        strictly_sorted(ks),
        !ks.contains(x),
    ensures
        strictly_sorted(insert_sorted(ks, x)),
        forall|k: Seq<char>| #[trigger] insert_sorted(ks, x).contains(k) <==> ks.contains(k) || k == x,
    decreases ks.len(),
{
    let r = insert_sorted(ks, x);
    if ks.len() == 0 {
        assert forall|k: Seq<char>| #[trigger] r.contains(k) <==> ks.contains(k) || k == x by {
            if r.contains(k) {
                assert(r[0] == x);
            }
            if k == x {
                assert(r[0] == x);
            }
        }
    } else if seq_lt(x, ks[0]) {
        assert forall|a: int, b: int| 0 <= a < b < r.len() implies seq_lt(#[trigger] r[a], #[trigger] r[b]) by {
            if a == 0 {
                assert(r[b] == ks[b - 1]);
                if b > 1 {
                    lemma_seq_lt_transitive(x, ks[0], ks[b - 1]);
                }
            } else {
                assert(r[a] == ks[a - 1] && r[b] == ks[b - 1]);
            }
        }
        assert forall|k: Seq<char>| #[trigger] r.contains(k) <==> ks.contains(k) || k == x by {
            if r.contains(k) {
                let i = choose|i: int| 0 <= i < r.len() && r[i] == k;
                if i > 0 {
                    assert(ks[i - 1] == k);
                }
            }
            if ks.contains(k) {
                let i = choose|i: int| 0 <= i < ks.len() && ks[i] == k;
                assert(r[i + 1] == k);
            }
            if k == x {
                assert(r[0] == x);
            }
        }
    } else {
        let t = ks.drop_first();
        assert forall|a: int, b: int| 0 <= a < b < t.len() implies seq_lt(#[trigger] t[a], #[trigger] t[b]) by {
            assert(t[a] == ks[a + 1] && t[b] == ks[b + 1]);
        }
        assert(!t.contains(x)) by {
            if t.contains(x) {
                let i = choose|i: int| 0 <= i < t.len() && t[i] == x;
                assert(ks[i + 1] == x);
            }
        }
        lemma_insert_sorted(t, x);
        let rt = insert_sorted(t, x);
        assert(x != ks[0]) by {
            assert(ks[0] == ks[0]);
        }
        lemma_seq_lt_total(x, ks[0]);
        assert(seq_lt(ks[0], x));
        assert forall|a: int, b: int| 0 <= a < b < r.len() implies seq_lt(#[trigger] r[a], #[trigger] r[b]) by {
            if a == 0 {
                assert(r[b] == rt[b - 1]);
                assert(rt.contains(rt[b - 1]));
                if rt[b - 1] != x {
                    let j = choose|j: int| 0 <= j < t.len() && t[j] == rt[b - 1];
                    assert(ks[j + 1] == rt[b - 1]);
                }
            } else {
                assert(r[a] == rt[a - 1] && r[b] == rt[b - 1]);
            }
        }
        assert forall|k: Seq<char>| #[trigger] r.contains(k) <==> ks.contains(k) || k == x by {
            if r.contains(k) {
                let i = choose|i: int| 0 <= i < r.len() && r[i] == k;
                if i > 0 {
                    assert(rt[i - 1] == k);
                    assert(rt.contains(k));
                    if t.contains(k) {
                        let j = choose|j: int| 0 <= j < t.len() && t[j] == k;
                        assert(ks[j + 1] == k);
                    }
                } else {
                    assert(ks[0] == k);
                }
            }
            if ks.contains(k) {
                let i = choose|i: int| 0 <= i < ks.len() && ks[i] == k;
                if i > 0 {
                    assert(t[i - 1] == k);
                    assert(rt.contains(k));
                    let j = choose|j: int| 0 <= j < rt.len() && rt[j] == k;
                    assert(r[j + 1] == k);
                } else {
                    assert(r[0] == k);
                }
            }
            if k == x {
                assert(rt.contains(x));
                let j = choose|j: int| 0 <= j < rt.len() && rt[j] == x;
                assert(r[j + 1] == x);
            }
        }
    }
}

/// Every finite set of paths has a strictly sorted enumeration.
pub proof fn lemma_sorted_exists(s: Set<Seq<char>>)
    requires
        s.finite(),
    ensures
        exists|ks: Seq<Seq<char>>| strictly_sorted(ks) && forall|k: Seq<char>| #[trigger] ks.contains(k) <==> s.contains(k),
    decreases s.len(),
{
    if s.len() == 0 {
        let ks = Seq::<Seq<char>>::empty();
        assert forall|k: Seq<char>| #[trigger] ks.contains(k) <==> s.contains(k) by {
            if s.contains(k) {
                assert(s.remove(k).len() < s.len());
            }
        }
        assert(strictly_sorted(ks));
        assert(strictly_sorted(ks) && forall|k: Seq<char>| #[trigger] ks.contains(k) <==> s.contains(k));
    } else {
        let x = s.choose();
        let t = s.remove(x);
        lemma_sorted_exists(t);
        let kt = choose|ks: Seq<Seq<char>>| strictly_sorted(ks) && forall|k: Seq<char>| #[trigger] ks.contains(k) <==> t.contains(k);
        lemma_insert_sorted(kt, x);
        let ks = insert_sorted(kt, x);
        assert forall|k: Seq<char>| #[trigger] ks.contains(k) <==> s.contains(k) by {}
        assert(strictly_sorted(ks) && forall|k: Seq<char>| #[trigger] ks.contains(k) <==> s.contains(k));
    }
}

/// The paths of a finite set, in increasing order.
pub open spec fn sorted_paths(s: Set<Seq<char>>) -> Seq<Seq<char>> {
    choose|ks: Seq<Seq<char>>| strictly_sorted(ks) && forall|k: Seq<char>| #[trigger] ks.contains(k) <==> s.contains(k)
}

/// `sorted_paths` enumerates the set in strictly increasing order, and is the
/// only sequence to do so.
pub proof fn lemma_sorted_paths(s: Set<Seq<char>>, ks: Seq<Seq<char>>)
    requires
        s.finite(),
    ensures
        strictly_sorted(sorted_paths(s)),
        forall|k: Seq<char>| #[trigger] sorted_paths(s).contains(k) <==> s.contains(k),
        strictly_sorted(ks) && (forall|k: Seq<char>| #[trigger] ks.contains(k) <==> s.contains(k)) ==> ks == sorted_paths(s),
{
    lemma_sorted_exists(s);
    if strictly_sorted(ks) && (forall|k: Seq<char>| #[trigger] ks.contains(k) <==> s.contains(k)) {
        lemma_sorted_unique(ks, sorted_paths(s));
    }
}

/// A map from relative paths to values, ordered by path.
pub struct PathMap<V> {
    entries: Vec<(String, V)>,
}

impl<V> PathMap<V> {
    /// The entries, keys taken by their characters.
    pub closed spec fn pairs(&self) -> Seq<(Seq<char>, V)> {
        self.entries@.map_values(|e: (String, V)| (e.0@, e.1))
    }

    /// The keys, in increasing order.
    pub open spec fn keys(&self) -> Seq<Seq<char>> {
        self.pairs().map_values(|e: (Seq<char>, V)| e.0)
    }

    /// The values, in key order.
    pub open spec fn values(&self) -> Seq<V> {
        self.pairs().map_values(|e: (Seq<char>, V)| e.1)
    }

    /// Well-formed: keys strictly increasing.
    pub open spec fn wf(&self) -> bool {
        strictly_sorted(self.keys())
    }

    pub open spec fn view(&self) -> Map<Seq<char>, V> {
        map_of(self.pairs())
    }

    /// Facts linking the view to the key and value sequences.
    pub proof fn lemma_view(&self)
        requires
            self.wf(),
        ensures
            self.keys().len() == self.values().len(),
            forall|i: int| 0 <= i < self.keys().len() ==> #[trigger] self.view().contains_key(self.keys()[i])
                && self.view()[self.keys()[i]] == self.values()[i],
            forall|k: Seq<char>| #[trigger] self.view().contains_key(k) <==> self.keys().contains(k),
            self.view().dom().finite(),
    {
        let s = self.pairs();
        assert(s.map_values(|e: (Seq<char>, V)| e.0) == self.keys());
        assert forall|i: int| 0 <= i < self.keys().len() implies #[trigger] self.view().contains_key(self.keys()[i])
            && self.view()[self.keys()[i]] == self.values()[i] by {
            lemma_map_of_value(s, i);
        }
        assert forall|k: Seq<char>| #[trigger] self.view().contains_key(k) <==> self.keys().contains(k) by {
            lemma_map_of_contains(s, k);
            if self.keys().contains(k) {
                let i = choose|i: int| 0 <= i < self.keys().len() && self.keys()[i] == k;
                assert(s[i].0 == k);
            }
            if self.view().contains_key(k) {
                let i = choose|i: int| 0 <= i < s.len() && (#[trigger] s[i]).0 == k;
                assert(self.keys()[i] == k);
            }
        }
        assert(self.view().dom() =~= self.keys().to_set());
    }

    /// An empty map.
    pub fn new() -> (m: Self)
        ensures
            m.wf(),
            m.keys().len() == 0,
            m.view() == Map::<Seq<char>, V>::empty(),
    {
        let m = PathMap { entries: Vec::new() };
        assert(m.pairs() =~= Seq::empty());
        m
    }

    /// Number of entries.
    pub fn len(&self) -> (n: usize)
        ensures
            n == self.keys().len(),
    {
        self.entries.len()
    }

    /// The key at position `i`.
    pub fn key_at(&self, i: usize) -> (k: &String)
        requires
            i < self.keys().len(),
        ensures
            k@ == self.keys()[i as int],
    {
        &self.entries[i].0
    }

    /// The value at position `i`.
    pub fn value_at(&self, i: usize) -> (v: &V)
        requires
            i < self.keys().len(),
        ensures
            *v == self.values()[i as int],
    {
        &self.entries[i].1
    }

    /// Position of `key`, or where it would be inserted.
    pub fn find(&self, key: &str) -> (r: Result<usize, usize>)
        requires
            self.wf(),
        ensures
            match r {
                Ok(i) => i < self.keys().len() && self.keys()[i as int] == key@,
                Err(i) => i <= self.keys().len()
                    && (forall|j: int| 0 <= j < i ==> seq_lt(#[trigger] self.keys()[j], key@))
                    && (forall|j: int| i <= j < self.keys().len() ==> seq_lt(key@, #[trigger] self.keys()[j])),
            },
    {
        let kc = chars_of(key);
        let mut lo: usize = 0;
        let mut hi: usize = self.entries.len();
        while lo < hi
            invariant
                kc@ == key@,
                self.wf(),
                lo <= hi <= self.keys().len(),
                self.keys().len() == self.entries@.len(),
                forall|j: int| 0 <= j < lo ==> seq_lt(#[trigger] self.keys()[j], key@),
                forall|j: int| hi <= j < self.keys().len() ==> seq_lt(key@, #[trigger] self.keys()[j]),
            decreases hi - lo,
        {
            let mid = lo + (hi - lo) / 2;
            let mc = chars_of(self.entries[mid].0.as_str());
            assert(self.keys()[mid as int] == self.entries@[mid as int].0@);
            match compare_chars(&mc, &kc) {
                PathOrder::Equal => {
                    return Ok(mid);
                },
                PathOrder::Less => {
                    proof {
                        assert forall|j: int| 0 <= j < mid + 1 implies seq_lt(#[trigger] self.keys()[j], key@) by {
                            if j < mid {
                                lemma_seq_lt_transitive(self.keys()[j], self.keys()[mid as int], key@);
                            }
                        }
                    }
                    lo = mid + 1;
                },
                PathOrder::Greater => {
                    proof {
                        assert forall|j: int| mid <= j < self.keys().len() implies seq_lt(key@, #[trigger] self.keys()[j]) by {
                            if j > mid {
                                lemma_seq_lt_transitive(key@, self.keys()[mid as int], self.keys()[j]);
                            }
                        }
                    }
                    hi = mid;
                },
            }
        }
        Err(lo)
    }

    /// The value stored under `key`, if any.
    pub fn get(&self, key: &str) -> (r: Option<&V>)
        requires
            self.wf(),
        ensures
            match r {
                Some(v) => self.view().contains_key(key@) && self.view()[key@] == *v,
                None => !self.view().contains_key(key@),
            },
    {
        proof { self.lemma_view(); }
        match self.find(key) {
            Ok(i) => {
                proof {
                    assert(self.values()[i as int] == self.entries@[i as int].1);
                }
                Some(&self.entries[i].1)
            },
            Err(i) => {
                proof {
                    if self.keys().contains(key@) {
                        let j = choose|j: int| 0 <= j < self.keys().len() && self.keys()[j] == key@;
                        lemma_seq_lt_irreflexive(key@);
                        if j < i {
                            assert(seq_lt(self.keys()[j], key@));
                        } else {
                            assert(seq_lt(key@, self.keys()[j]));
                        }
                    }
                }
                None
            },
        }
    }

    /// Whether `key` is present.
    pub fn contains(&self, key: &str) -> (b: bool)
        requires
            self.wf(),
        ensures
            b == self.view().contains_key(key@),
    {
        self.get(key).is_some()
    }

    /// Stores `value` under `key`, replacing any value stored there.
    pub fn insert(&mut self, key: String, value: V)
        requires
            old(self).wf(),
        ensures
            final(self).wf(),
            final(self).view() == old(self).view().insert(key@, value),
    {
        proof { old(self).lemma_view(); }
        let ghost k = key@;
        let ghost oldp = self.pairs();
        match self.find(key.as_str()) {
            Ok(i) => {
                self.entries.set(i, (key, value));
                proof {
                    let np = self.pairs();
                    assert(np =~= oldp.update(i as int, (k, value)));
                    assert(self.keys() =~= old(self).keys());
                    self.lemma_view();
                    assert(self.view() =~= old(self).view().insert(k, value)) by {
                        assert forall|x: Seq<char>| #[trigger] self.view().contains_key(x)
                            <==> old(self).view().insert(k, value).contains_key(x) by {
                        }
                        assert forall|x: Seq<char>| #[trigger] self.view().contains_key(x)
                            implies self.view()[x] == old(self).view().insert(k, value)[x] by {
                            let j = choose|j: int| 0 <= j < self.keys().len() && self.keys()[j] == x;
                            if j != i {
                                assert(self.values()[j] == old(self).values()[j]);
                            } else {
                                assert(self.values()[j] == value);
                            }
                        }
                    }
                }
            },
            Err(i) => {
                self.entries.insert(i, (key, value));
                proof {
                    let np = self.pairs();
                    assert(np =~= oldp.insert(i as int, (k, value)));
                    assert(self.keys() =~= old(self).keys().insert(i as int, k));
                    let ks = self.keys();
                    let oks = old(self).keys();
                    assert forall|a: int, b: int| 0 <= a < b < ks.len() implies seq_lt(#[trigger] ks[a], #[trigger] ks[b]) by {
                        if b < i {
                            assert(ks[a] == oks[a] && ks[b] == oks[b]);
                        } else if b == i {
                            assert(ks[a] == oks[a]);
                        } else if a < i {
                            assert(ks[a] == oks[a] && ks[b] == oks[b - 1]);
                            lemma_seq_lt_transitive(oks[a], k, oks[b - 1]);
                        } else if a == i {
                            assert(ks[b] == oks[b - 1]);
                        } else {
                            assert(ks[a] == oks[a - 1] && ks[b] == oks[b - 1]);
                        }
                    }
                    self.lemma_view();
                    assert(self.view() =~= old(self).view().insert(k, value)) by {
                        assert forall|x: Seq<char>| #[trigger] self.view().contains_key(x)
                            <==> old(self).view().insert(k, value).contains_key(x) by {
                            assert(ks[i as int] == k);
                            if ks.contains(x) {
                                let j = choose|j: int| 0 <= j < ks.len() && ks[j] == x;
                                if j < i {
                                    assert(oks[j] == x);
                                } else if j > i {
                                    assert(oks[j - 1] == x);
                                }
                            }
                            if oks.contains(x) {
                                let j = choose|j: int| 0 <= j < oks.len() && oks[j] == x;
                                if j < i {
                                    assert(ks[j] == x);
                                } else {
                                    assert(ks[j + 1] == x);
                                }
                            }
                        }
                        assert forall|x: Seq<char>| #[trigger] self.view().contains_key(x)
                            implies self.view()[x] == old(self).view().insert(k, value)[x] by {
                            let j = choose|j: int| 0 <= j < ks.len() && ks[j] == x;
                            if j < i {
                                assert(self.values()[j] == old(self).values()[j]);
                                assert(oks[j] == x);
                                lemma_seq_lt_irreflexive(k);
                            } else if j > i {
                                assert(self.values()[j] == old(self).values()[j - 1]);
                                assert(oks[j - 1] == x);
                                lemma_seq_lt_irreflexive(k);
                            } else {
                                assert(self.values()[j] == value);
                            }
                        }
                    }
                }
            },
        }
    }
}

} // verus!
