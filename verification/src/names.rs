//! A map from names to values that keeps its entries in strict name order,
//! so that walking it visits names in ascending order and no name occurs twice.

use vstd::prelude::*;
use vstd::string::*;
use crate::text::{name_lt, str_eq, str_lt, lemma_name_lt_irreflexive, lemma_name_lt_total,
    lemma_name_lt_transitive};

verus! {

/// Entries are in strictly ascending name order.
pub open spec fn names_sorted<V>(s: Seq<(Seq<char>, V)>) -> bool {
    forall|i: int, j: int| 0 <= i < j < s.len() ==> name_lt(#[trigger] s[i].0, #[trigger] s[j].0)
}

/// Some entry carries the name `k`.
pub open spec fn has_name<V>(s: Seq<(Seq<char>, V)>, k: Seq<char>) -> bool {
    exists|i: int| 0 <= i < s.len() && #[trigger] s[i].0 == k
}

/// The position of the entry named `k` (meaningful when `has_name(s, k)`).
pub open spec fn index_of_name<V>(s: Seq<(Seq<char>, V)>, k: Seq<char>) -> int {
    choose|i: int| 0 <= i < s.len() && #[trigger] s[i].0 == k
}

/// The value stored under `k`, if any.
pub open spec fn lookup<V>(s: Seq<(Seq<char>, V)>, k: Seq<char>) -> Option<V> {
    if has_name(s, k) {
        Some(s[index_of_name(s, k)].1)
    } else {
        None
    }
}

/// The entries read as a finite map from names to values.
pub open spec fn as_map<V>(s: Seq<(Seq<char>, V)>) -> Map<Seq<char>, V> {
    Map::new(|k: Seq<char>| has_name(s, k), |k: Seq<char>| s[index_of_name(s, k)].1)
}

/// In sorted entries a name occurs at one position only.
pub proof fn lemma_sorted_names_unique<V>(s: Seq<(Seq<char>, V)>, i: int, j: int)
    requires
        names_sorted(s),
        0 <= i < s.len(),
        0 <= j < s.len(),
        s[i].0 == s[j].0,
    ensures
        i == j,
{
    if i < j {
        lemma_name_lt_irreflexive(s[i].0);
    } else if j < i {
        lemma_name_lt_irreflexive(s[j].0);
    }
}

/// In sorted entries, the entry at position `i` is what a lookup of its name finds.
pub proof fn lemma_lookup_at<V>(s: Seq<(Seq<char>, V)>, i: int)
    requires
        names_sorted(s),
        0 <= i < s.len(),
    ensures
        has_name(s, s[i].0),
        index_of_name(s, s[i].0) == i,
        lookup(s, s[i].0) == Some(s[i].1),
{
    assert(has_name(s, s[i].0));
    let j = index_of_name(s, s[i].0);
    lemma_sorted_names_unique(s, i, j);
}

proof fn lemma_map_after_update<V>(s: Seq<(Seq<char>, V)>, p: int, value: V)
    requires
        names_sorted(s),
        0 <= p < s.len(),
        names_sorted(s.update(p, (s[p].0, value))),
    ensures
        as_map(s.update(p, (s[p].0, value))) == as_map(s).insert(s[p].0, value),
{
    let t = s.update(p, (s[p].0, value));
    assert forall|k: Seq<char>| #[trigger] has_name(t, k) == (k == s[p].0 || has_name(s, k)) by {
        if has_name(t, k) {
            let i = index_of_name(t, k);
            assert(s[i].0 == k);
        }
        if has_name(s, k) {
            let i = index_of_name(s, k);
            assert(t[i].0 == k);
        }
        if k == s[p].0 {
            assert(t[p].0 == k);
        }
    }
    assert forall|k: Seq<char>| has_name(t, k) implies #[trigger] t[index_of_name(t, k)].1 == (
    if k == s[p].0 {
        value
    } else {
        s[index_of_name(s, k)].1
    }) by {
        let i = index_of_name(t, k);
        lemma_lookup_at(t, i);
        lemma_lookup_at(t, p);
        if k != s[p].0 {
            assert(s[i].0 == k);
            lemma_lookup_at(s, i);
        }
    }
    assert(as_map(t) =~= as_map(s).insert(s[p].0, value));
}

proof fn lemma_map_after_insert<V>(s: Seq<(Seq<char>, V)>, p: int, k: Seq<char>, value: V)
    requires
        names_sorted(s),
        0 <= p <= s.len(),
        !has_name(s, k),
        names_sorted(s.insert(p, (k, value))),
    ensures
        as_map(s.insert(p, (k, value))) == as_map(s).insert(k, value),
{
    let t = s.insert(p, (k, value));
    assert forall|q: Seq<char>| #[trigger] has_name(t, q) == (q == k || has_name(s, q)) by {
        if has_name(t, q) {
            let i = index_of_name(t, q);
            if i < p {
                assert(s[i].0 == q);
            } else if i > p {
                assert(s[i - 1].0 == q);
            }
        }
        if has_name(s, q) {
            let i = index_of_name(s, q);
            if i < p {
                assert(t[i].0 == q);
            } else {
                assert(t[i + 1].0 == q);
            }
        }
        if q == k {
            assert(t[p].0 == k);
        }
    }
    assert forall|q: Seq<char>| has_name(t, q) implies #[trigger] t[index_of_name(t, q)].1 == (
    if q == k {
        value
    } else {
        s[index_of_name(s, q)].1
    }) by {
        let i = index_of_name(t, q);
        lemma_lookup_at(t, i);
        lemma_lookup_at(t, p);
        if q != k {
            if i < p {
                lemma_lookup_at(s, i);
            } else {
                lemma_lookup_at(s, i - 1);
            }
        }
    }
    assert(as_map(t) =~= as_map(s).insert(k, value));
}

/// Name-keyed map whose entries stay in ascending name order.
#[derive(Debug)]
pub struct NameMap<V> {
    entries: Vec<(String, V)>,
}

impl<V> View for NameMap<V> {
    type V = Seq<(Seq<char>, V)>;

    closed spec fn view(&self) -> Seq<(Seq<char>, V)> {
        self.entries@.map_values(|e: (String, V)| (e.0@, e.1))
    }
}

impl<V> NameMap<V> {
    #[verifier::type_invariant]
    closed spec fn sorted(self) -> bool {
        names_sorted(self@)
    }

    /// An empty map.
    pub fn new() -> (m: Self)
        ensures
            m@ == Seq::<(Seq<char>, V)>::empty(),
    {
        let m = NameMap { entries: Vec::new() };
        assert(m@ =~= Seq::<(Seq<char>, V)>::empty());
        m
    }

    /// Number of entries.
    pub fn len(&self) -> (n: usize)
        ensures
            n == self@.len(),
            names_sorted(self@),
    {
        proof {
            use_type_invariant(self);
        }
        self.entries.len()
    }

    /// The name of the entry at position `i`, in ascending name order.
    pub fn name_at(&self, i: usize) -> (r: &String)
        requires
            i < self@.len(),
        ensures
            r@ == self@[i as int].0,
    {
        &self.entries[i].0
    }

    /// The value of the entry at position `i`.
    pub fn value_at(&self, i: usize) -> (r: &V)
        requires
            i < self@.len(),
        ensures
            *r == self@[i as int].1,
    {
        &self.entries[i].1
    }

    /// The value stored under `name`.
    pub fn get(&self, name: &str) -> (r: Option<&V>)
        ensures
            names_sorted(self@),
            r is Some <==> has_name(self@, name@),
            r matches Some(v) ==> lookup(self@, name@) == Some(*v),
    {
        proof {
            use_type_invariant(self);
        }
        let n = self.entries.len();
        let mut i: usize = 0;
        while i < n
            invariant
                n == self@.len(),
                names_sorted(self@),
                i <= n,
                forall|j: int| 0 <= j < i ==> self@[j].0 != name@,
            decreases n - i,
        {
            if str_eq(self.entries[i].0.as_str(), name) {
                proof {
                    lemma_lookup_at(self@, i as int);
                }
                return Some(&self.entries[i].1);
            }
            i = i + 1;
        }
        None
    }

    /// Store `value` under `name`, replacing and returning the value that was
    /// stored there; the entry lands at its place in name order.
    pub fn insert(&mut self, name: String, value: V) -> (r: Option<V>)
        ensures
            names_sorted(final(self)@),
            as_map(final(self)@) == as_map(old(self)@).insert(name@, value),
            r == lookup(old(self)@, name@),
            final(self)@.len() == old(self)@.len() + (if has_name(old(self)@, name@) {
                0int
            } else {
                1int
            }),
    {
        proof {
            use_type_invariant(&*self);
        }
        let ghost s = self@;
        let n = self.entries.len();
        let mut p: usize = 0;
        while p < n
            invariant
                n == s.len(),
                s == self@,
                p <= n,
                forall|j: int| 0 <= j < p ==> name_lt(#[trigger] s[j].0, name@),
            ensures
                p <= n,
                forall|j: int| 0 <= j < p ==> name_lt(#[trigger] s[j].0, name@),
                p < n ==> !name_lt(s[p as int].0, name@),
            decreases n - p,
        {
            if !str_lt(self.entries[p].0.as_str(), name.as_str()) {
                break;
            }
            p = p + 1;
        }
        let mut entries: Vec<(String, V)> = Vec::new();
        std::mem::swap(&mut entries, &mut self.entries);
        if p < n && str_eq(entries[p].0.as_str(), name.as_str()) {
            let (_old_name, old_value) = entries.remove(p);
            entries.insert(p, (name, value));
            let ghost t = entries@.map_values(|e: (String, V)| (e.0@, e.1));
            proof {
                assert(t =~= s.update(p as int, (s[p as int].0, value)));
                lemma_lookup_at(s, p as int);
                assert forall|i: int, j: int| 0 <= i < j < t.len() implies name_lt(
                    #[trigger] t[i].0,
                    #[trigger] t[j].0,
                ) by {
                    assert(t[i].0 == s[i].0);
                    assert(t[j].0 == s[j].0);
                }
                lemma_map_after_update(s, p as int, value);
            }
            self.entries = entries;
            Some(old_value)
        } else {
            proof {
                if p < n {
                    lemma_name_lt_total(s[p as int].0, name@);
                }
                assert forall|j: int| 0 <= j < s.len() implies s[j].0 != name@ by {
                    if j < p {
                        lemma_name_lt_irreflexive(name@);
                    } else if j > p {
                        lemma_name_lt_transitive(name@, s[p as int].0, s[j].0);
                        lemma_name_lt_irreflexive(name@);
                    }
                }
            }
            let ghost k = name@;
            entries.insert(p, (name, value));
            let ghost t = entries@.map_values(|e: (String, V)| (e.0@, e.1));
            proof {
                assert(t =~= s.insert(p as int, (k, value)));
                assert forall|i: int, j: int| 0 <= i < j < t.len() implies name_lt(
                    #[trigger] t[i].0,
                    #[trigger] t[j].0,
                ) by {
                    if j < p {
                    } else if j == p {
                    } else if i < p {
                        assert(t[j].0 == s[j - 1].0);
                        lemma_name_lt_total(s[p as int].0, k);
                        if j - 1 > p {
                            lemma_name_lt_transitive(k, s[p as int].0, s[j - 1].0);
                        }
                        lemma_name_lt_transitive(s[i].0, k, s[j - 1].0);
                    } else if i == p {
                        lemma_name_lt_total(s[p as int].0, k);
                        if j - 1 > p {
                            lemma_name_lt_transitive(k, s[p as int].0, s[j - 1].0);
                        }
                    } else {
                        assert(t[i].0 == s[i - 1].0);
                        assert(t[j].0 == s[j - 1].0);
                    }
                }
                lemma_map_after_insert(s, p as int, k, value);
            }
            self.entries = entries;
            None
        }
    }

    /// Replace the value at position `i`; names and order stay as they are.
    pub fn set_value(&mut self, i: usize, value: V)
        requires
            i < old(self)@.len(),
        ensures
            final(self)@ == old(self)@.update(i as int, (old(self)@[i as int].0, value)),
    {
        proof {
            use_type_invariant(&*self);
        }
        let mut entries: Vec<(String, V)> = Vec::new();
        std::mem::swap(&mut entries, &mut self.entries);
        let (name, _old) = entries.remove(i);
        entries.insert(i, (name, value));
        proof {
            assert(entries@.map_values(|e: (String, V)| (e.0@, e.1)) =~= old(self)@.update(
                i as int,
                (old(self)@[i as int].0, value),
            ));
        }
        self.entries = entries;
    }
}

impl<V: Clone> NameMap<V> {
    /// A copy of the map: the same names in the same order, each value cloned.
    pub fn duplicate(&self) -> (r: Self)
        ensures
            r@.len() == self@.len(),
            forall|i: int|
                0 <= i < self@.len() ==> #[trigger] r@[i].0 == self@[i].0 && cloned(
                    self@[i].1,
                    r@[i].1,
                ),
    {
        proof {
            use_type_invariant(self);
        }
        let n = self.entries.len();
        let mut entries: Vec<(String, V)> = Vec::new();
        let mut i: usize = 0;
        while i < n
            invariant
                n == self@.len(),
                names_sorted(self@),
                i <= n,
                entries@.len() == i,
                forall|j: int|
                    0 <= j < i ==> #[trigger] entries@[j].0@ == self@[j].0 && cloned(
                        self@[j].1,
                        entries@[j].1,
                    ),
            decreases n - i,
        {
            let name = self.entries[i].0.clone();
            let value = self.entries[i].1.clone();
            entries.push((name, value));
            i = i + 1;
        }
        let r = NameMap { entries };
        proof {
            assert forall|a: int, b: int| 0 <= a < b < r@.len() implies name_lt(
                #[trigger] r@[a].0,
                #[trigger] r@[b].0,
            ) by {
                assert(r@[a].0 == self@[a].0);
                assert(r@[b].0 == self@[b].0);
            }
        }
        r
    }
}

} // verus!
