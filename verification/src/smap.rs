//! A name-keyed mapping stored as a vector of entries kept strictly sorted in
//! lexicographic key order. Sortedness makes membership unique, makes a later
//! registration for the same name replace the earlier one, and gives the
//! metadata snapshot one canonical entry order.

use vstd::prelude::*;
use crate::strutil::{lex_lt, str_eq, str_lt, lemma_lex_irrefl, lemma_lex_connex, lemma_lex_trans};

verus! {

/// The mathematical mapping held by an entry sequence: a later entry for the
/// same key wins.
pub open spec fn map_of<V>(entries: Seq<(String, V)>) -> Map<Seq<char>, V>
    decreases entries.len(),
{
    if entries.len() == 0 {
        Map::empty()
    } else {
        map_of(entries.drop_last()).insert(entries.last().0@, entries.last().1)
    }
}

/// Entries sorted strictly ascending by key.
pub open spec fn sorted_entries<V>(entries: Seq<(String, V)>) -> bool {
    forall|i: int, j: int|
        0 <= i < j < entries.len() ==> lex_lt(entries[i].0@, entries[j].0@)
}

/// Pairwise distinct keys.
pub open spec fn distinct_keys<V>(entries: Seq<(String, V)>) -> bool {
    forall|i: int, j: int|
        0 <= i < j < entries.len() ==> entries[i].0@ != entries[j].0@
}

/// Sorted entries have pairwise distinct keys.
pub proof fn lemma_sorted_distinct<V>(entries: Seq<(String, V)>)
    requires
        sorted_entries(entries),
    ensures
        distinct_keys(entries),
{
    assert forall|i: int, j: int| 0 <= i < j < entries.len() implies entries[i].0@
        != entries[j].0@ by {
        if entries[i].0@ == entries[j].0@ {
            lemma_lex_irrefl(entries[i].0@);
        }
    }
}

/// With distinct keys, `map_of` holds exactly the entries: its domain is the
/// set of keys, and each key is mapped to its entry's value.
pub proof fn lemma_map_of_entries<V>(entries: Seq<(String, V)>)
    requires
        distinct_keys(entries),
    ensures
        forall|k: Seq<char>|
            map_of(entries).dom().contains(k) ==> exists|i: int|
                0 <= i < entries.len() && #[trigger] entries[i].0@ == k,
        forall|i: int|
            0 <= i < entries.len() ==> map_of(entries).dom().contains(#[trigger] entries[i].0@)
                && map_of(entries)[entries[i].0@] == entries[i].1,
    decreases entries.len(),
{
    if entries.len() > 0 {
        let front = entries.drop_last();
        assert(forall|i: int| 0 <= i < front.len() ==> front[i] == entries[i]);
        lemma_map_of_entries(front);
        assert forall|k: Seq<char>| map_of(entries).dom().contains(k) implies exists|i: int|
            0 <= i < entries.len() && #[trigger] entries[i].0@ == k by {
            assert(map_of(entries) == map_of(front).insert(entries.last().0@, entries.last().1));
            if k != entries.last().0@ {
                assert(map_of(front).dom().contains(k));
                let i = choose|i: int| 0 <= i < front.len() && #[trigger] front[i].0@ == k;
                assert(front[i] == entries[i]);
                assert(entries[i].0@ == k);
            } else {
                assert(entries[entries.len() - 1].0@ == k);
            }
        }
        assert forall|i: int| 0 <= i < entries.len() implies map_of(entries).dom().contains(
            #[trigger] entries[i].0@) && map_of(entries)[entries[i].0@] == entries[i].1 by {
            if i < entries.len() - 1 {
                assert(front[i] == entries[i]);
                assert(entries[i].0@ != entries.last().0@);
            }
        }
    }
}

/// A mapping from names to values, the entries kept strictly sorted by key.
pub struct SortedStrMap<V> {
    pub entries: Vec<(String, V)>,
}

impl<V> SortedStrMap<V> {
    /// The entries are strictly sorted by key.
    pub open spec fn wf(self) -> bool {
        sorted_entries(self.entries@)
    }

    /// The mapping the entries hold.
    pub open spec fn map(self) -> Map<Seq<char>, V> {
        map_of(self.entries@)
    }

    /// An empty mapping.
    pub fn new() -> (r: Self)
        ensures
            r.wf(),
            r.map() == Map::<Seq<char>, V>::empty(),
            r.entries@.len() == 0,
    {
        SortedStrMap { entries: Vec::new() }
    }

    /// The value registered under `k`, if any.
    pub fn get(&self, k: &str) -> (r: Option<&V>)
        requires
            self.wf(),
        ensures
            self.map().dom().contains(k@) ==> (r matches Some(v) && *v == self.map()[k@]),
            !self.map().dom().contains(k@) ==> r is None,
    {
        proof {
            lemma_sorted_distinct(self.entries@);
            lemma_map_of_entries(self.entries@);
        }
        let n = self.entries.len();
        let mut i: usize = 0;
        while i < n
            invariant
                n == self.entries@.len(),
                i <= n,
                self.wf(),
                distinct_keys(self.entries@),
                forall|j: int| 0 <= j < i ==> self.entries@[j].0@ != k@,
            decreases n - i,
        {
            if str_eq(self.entries[i].0.as_str(), k) {
                proof {
                    lemma_map_of_entries(self.entries@);
                }
                return Some(&self.entries[i].1);
            }
            i = i + 1;
        }
        proof {
            lemma_map_of_entries(self.entries@);
            if self.map().dom().contains(k@) {
                let j = choose|j: int|
                    0 <= j < self.entries@.len() && #[trigger] self.entries@[j].0@ == k@;
                assert(false);
            }
        }
        None
    }

    /// Registers `v` under `k`; a later registration for the same key
    /// replaces the earlier one.
    pub fn insert(&mut self, k: String, v: V)
        requires
            old(self).wf(),
        ensures
            final(self).wf(),
            final(self).map() == old(self).map().insert(k@, v),
    {
        proof {
            lemma_sorted_distinct(old(self).entries@);
            lemma_map_of_entries(old(self).entries@);
        }
        let n = self.entries.len();
        let mut i: usize = 0;
        while i < n && str_lt(self.entries[i].0.as_str(), k.as_str())
            invariant
                n == self.entries@.len(),
                i <= n,
                *self == *old(self),
                forall|j: int| 0 <= j < i ==> lex_lt(self.entries@[j].0@, k@),
            decreases n - i,
        {
            i = i + 1;
        }
        let ghost olde = old(self).entries@;
        if i < n && str_eq(self.entries[i].0.as_str(), k.as_str()) {
            self.entries.remove(i);
            self.entries.insert(i, (k, v));
            proof {
                let newe = self.entries@;
                assert(newe =~= olde.update(i as int, (k, v)));
                lemma_replace_at(olde, i as int, (k, v));
            }
        } else {
            proof {
                if i < n {
                    lemma_lex_connex(olde[i as int].0@, k@);
                }
                assert forall|j: int| i <= j < n implies lex_lt(k@, olde[j].0@) by {
                    if i < j {
                        lemma_lex_trans(k@, olde[i as int].0@, olde[j].0@);
                    }
                }
            }
            self.entries.insert(i, (k, v));
            proof {
                lemma_insert_at(olde, i as int, (k, v));
                assert(self.entries@ =~= olde.insert(i as int, (k, v)));
            }
        }
    }
}

/// Replacing the entry at `i` by one with an equal key view updates the
/// mapping at that key and keeps the entries sorted.
proof fn lemma_replace_at<V>(olde: Seq<(String, V)>, i: int, e: (String, V))
    requires
        sorted_entries(olde),
        0 <= i < olde.len(),
        e.0@ == olde[i].0@,
    ensures
        sorted_entries(olde.update(i, e)),
        map_of(olde.update(i, e)) == map_of(olde).insert(e.0@, e.1),
{
    let newe = olde.update(i, e);
    assert(sorted_entries(newe));
    lemma_sorted_distinct(olde);
    lemma_sorted_distinct(newe);
    lemma_map_of_entries(olde);
    lemma_map_of_entries(newe);
    let m1 = map_of(newe);
    let m2 = map_of(olde).insert(e.0@, e.1);
    assert forall|k: Seq<char>| m1.dom().contains(k) implies m2.dom().contains(k) && m1[k]
        == m2[k] by {
        let j = choose|j: int| 0 <= j < newe.len() && #[trigger] newe[j].0@ == k;
        if j != i {
            assert(olde[j].0@ == k);
            assert(olde[j].0@ != olde[i].0@);
        }
    }
    assert forall|k: Seq<char>| m2.dom().contains(k) implies m1.dom().contains(k) by {
        if k != e.0@ {
            let j = choose|j: int| 0 <= j < olde.len() && #[trigger] olde[j].0@ == k;
            assert(newe[j].0@ == k);
        } else {
            assert(newe[i].0@ == k);
        }
    }
    assert(m1 =~= m2);
}

/// Inserting an entry whose key is above everything before `i` and below
/// everything from `i` on keeps the entries sorted and inserts into the
/// mapping.
proof fn lemma_insert_at<V>(olde: Seq<(String, V)>, i: int, e: (String, V))
    requires
        sorted_entries(olde),
        0 <= i <= olde.len(),
        forall|j: int| 0 <= j < i ==> lex_lt(olde[j].0@, e.0@),
        forall|j: int| i <= j < olde.len() ==> lex_lt(e.0@, olde[j].0@),
    ensures
        sorted_entries(olde.insert(i, e)),
        map_of(olde.insert(i, e)) == map_of(olde).insert(e.0@, e.1),
{
    let newe = olde.insert(i, e);
    assert(newe.len() == olde.len() + 1);
    assert forall|p: int, q: int| 0 <= p < q < newe.len() implies lex_lt(
        newe[p].0@, newe[q].0@) by {
        if p < i && q > i {
            lemma_lex_trans(newe[p].0@, e.0@, newe[q].0@);
        }
    }
    lemma_sorted_distinct(olde);
    lemma_sorted_distinct(newe);
    lemma_map_of_entries(olde);
    lemma_map_of_entries(newe);
    let m1 = map_of(newe);
    let m2 = map_of(olde).insert(e.0@, e.1);
    assert forall|k: Seq<char>| m1.dom().contains(k) implies m2.dom().contains(k) && m1[k]
        == m2[k] by {
        let j = choose|j: int| 0 <= j < newe.len() && #[trigger] newe[j].0@ == k;
        if j < i {
            assert(olde[j].0@ == k);
            lemma_lex_irrefl(k);
        } else if j > i {
            assert(olde[j - 1].0@ == k);
            lemma_lex_irrefl(k);
        }
    }
    assert forall|k: Seq<char>| m2.dom().contains(k) implies m1.dom().contains(k) by {
        if k != e.0@ {
            let j = choose|j: int| 0 <= j < olde.len() && #[trigger] olde[j].0@ == k;
            if j < i {
                assert(newe[j].0@ == k);
            } else {
                assert(newe[j + 1].0@ == k);
            }
        } else {
            assert(newe[i].0@ == k);
        }
    }
    assert(m1 =~= m2);
}

} // verus!
