//! A map from text keys to values, kept sorted by key.
//!
//! std's `BTreeMap<String, V>` is not used for this: vstd's contracts for
//! `BTreeMap` hold only for key types known to obey the laws of their order
//! (`vstd::laws_cmp::obeys_cmp`), and vstd establishes that for no `String`
//! order, so nothing about lookups or key order could be proved through it.
//! The sorted vector here states both exactly.
use vstd::prelude::*;

use crate::order::{compare_keys, key_lt, lemma_key_order};

verus! {

/// A map from text keys to values, kept in key order (the order of a
/// `BTreeMap<String, V>`: byte-wise on the UTF-8 keys).
pub struct TextMap<V> {
    entries: Vec<(String, V)>,
}

impl<V> TextMap<V> {
    /// The keys, in order.
    pub closed spec fn key_seq(&self) -> Seq<Seq<char>> {
        self.entries@.map_values(|e: (String, V)| e.0@)
    }

    /// The values, in key order.
    pub closed spec fn value_seq(&self) -> Seq<V> {
        self.entries@.map_values(|e: (String, V)| e.1)
    }

    /// Well-formedness: keys strictly increase, so each occurs once.
    pub closed spec fn wf(&self) -> bool {
        forall|i: int, j: int|
            0 <= i < j < self.entries@.len() ==> key_lt(#[trigger] self.entries@[i].0@, #[trigger] self.entries@[j].0@)
    }

    /// The index of `k` among the keys, if present.
    pub closed spec fn index_of(&self, k: Seq<char>) -> int {
        choose|i: int| 0 <= i < self.entries@.len() && self.entries@[i].0@ == k
    }

    /// The contents as a map.
    pub closed spec fn view(&self) -> Map<Seq<char>, V> {
        Map::new(
            |k: Seq<char>| exists|i: int| 0 <= i < self.entries@.len() && self.entries@[i].0@ == k,
            |k: Seq<char>| self.entries@[self.index_of(k)].1,
        )
    }

    /// Keys and values in order describe the map exactly, and keys strictly
    /// increase.
    pub proof fn lemma_view(&self)
        requires
            self.wf(),
        ensures
            self.key_seq().len() == self.value_seq().len(),
            forall|i: int, j: int| 0 <= i < j < self.key_seq().len() ==> key_lt(#[trigger] self.key_seq()[i], #[trigger] self.key_seq()[j]),
            forall|i: int| 0 <= i < self.key_seq().len() ==> #[trigger] self.view().contains_key(self.key_seq()[i])
                && self.view()[self.key_seq()[i]] == self.value_seq()[i],
            forall|k: Seq<char>| #[trigger] self.view().contains_key(k) ==> exists|i: int| 0 <= i < self.key_seq().len() && self.key_seq()[i] == k,
            self.view().dom().finite(),
            self.view().len() == self.key_seq().len(),
    {
        assert forall|i: int| 0 <= i < self.key_seq().len() implies #[trigger] self.view().contains_key(self.key_seq()[i])
            && self.view()[self.key_seq()[i]] == self.value_seq()[i] by {
            let k = self.entries@[i].0@;
            assert(self.entries@[i].0@ == k);
            let j = self.index_of(k);
            if j != i {
                lemma_key_order(k, k, k);
                if j < i {
                    assert(key_lt(self.entries@[j].0@, self.entries@[i].0@));
                } else {
                    assert(key_lt(self.entries@[i].0@, self.entries@[j].0@));
                }
            }
        }
        assert forall|k: Seq<char>| #[trigger] self.view().contains_key(k) implies exists|i: int| 0 <= i < self.key_seq().len() && self.key_seq()[i] == k by {
            let i = choose|i: int| 0 <= i < self.entries@.len() && self.entries@[i].0@ == k;
            assert(self.key_seq()[i] == k);
        }
        self.lemma_dom_finite();
    }

    proof fn lemma_dom_finite(&self)
        requires
            self.wf(),
        ensures
            self.view().dom().finite(),
            self.view().len() == self.entries@.len(),
        decreases self.entries@.len(),
    {
        let keys = self.key_seq();
        assert forall|k: Seq<char>| self.view().dom().contains(k) <==> keys.to_set().contains(k) by {
            if self.view().dom().contains(k) {
                let i = choose|i: int| 0 <= i < self.entries@.len() && self.entries@[i].0@ == k;
                assert(keys[i] == k);
                assert(keys.contains(k));
            }
            if keys.to_set().contains(k) {
                assert(keys.contains(k));
                let i = choose|i: int| 0 <= i < keys.len() && keys[i] == k;
                assert(self.entries@[i].0@ == k);
            }
        }
        assert(self.view().dom() =~= keys.to_set());
        assert forall|i: int, j: int| 0 <= i < keys.len() && 0 <= j < keys.len() && i != j implies keys[i] != keys[j] by {
            lemma_key_order(keys[i], keys[j], keys[j]);
            if i < j {
                assert(key_lt(self.entries@[i].0@, self.entries@[j].0@));
            } else {
                assert(key_lt(self.entries@[j].0@, self.entries@[i].0@));
            }
        }
        assert(keys.no_duplicates());
        keys.unique_seq_to_set();
        vstd::seq_lib::seq_to_set_is_finite(keys);
    }

    /// The empty map.
    pub fn new() -> (m: TextMap<V>)
        ensures
            m.wf(),
            m.view() == Map::<Seq<char>, V>::empty(),
            m.key_seq() == Seq::<Seq<char>>::empty(),
    {
        let m = TextMap { entries: Vec::new() };
        assert(m.view() =~= Map::<Seq<char>, V>::empty());
        assert(m.key_seq() =~= Seq::<Seq<char>>::empty());
        m
    }

    /// Number of entries.
    pub fn len(&self) -> (n: usize)
        requires
            self.wf(),
        ensures
            n == self.view().len(),
            n == self.key_seq().len(),
    {
        proof {
            self.lemma_view();
        }
        self.entries.len()
    }

    /// The `i`-th key in order.
    pub fn key_at(&self, i: usize) -> (k: &String)
        requires
            i < self.key_seq().len(),
        ensures
            k@ == self.key_seq()[i as int],
    {
        &self.entries[i].0
    }

    /// The value of the `i`-th key in order.
    pub fn value_at(&self, i: usize) -> (m: &V)
        requires
            i < self.key_seq().len(),
        ensures
            *m == self.value_seq()[i as int],
    {
        &self.entries[i].1
    }

    /// Binary search: whether `key` is present and where it is or would go.
    fn search(&self, key: &str) -> (r: (bool, usize))
        requires
            self.wf(),
        ensures
            r.1 <= self.entries@.len(),
            r.0 ==> r.1 < self.entries@.len() && self.entries@[r.1 as int].0@ == key@,
            !r.0 ==> forall|i: int| 0 <= i < r.1 ==> key_lt(#[trigger] self.entries@[i].0@, key@),
            !r.0 ==> forall|i: int| r.1 <= i < self.entries@.len() ==> key_lt(key@, #[trigger] self.entries@[i].0@),
    {
        let mut lo: usize = 0;
        let mut hi: usize = self.entries.len();
        while lo < hi
            invariant
                self.wf(),
                lo <= hi <= self.entries@.len(),
                forall|i: int| 0 <= i < lo ==> key_lt(#[trigger] self.entries@[i].0@, key@),
                forall|i: int| hi <= i < self.entries@.len() ==> key_lt(key@, #[trigger] self.entries@[i].0@),
            decreases hi - lo,
        {
            let mid = lo + (hi - lo) / 2;
            let c = compare_keys(self.entries[mid].0.as_str(), key);
            if c == 0 {
                return (true, mid);
            } else if c < 0 {
                proof {
                    assert forall|i: int| 0 <= i < mid + 1 implies key_lt(#[trigger] self.entries@[i].0@, key@) by {
                        if i < mid {
                            assert(key_lt(self.entries@[i].0@, self.entries@[mid as int].0@));
                            lemma_key_order(self.entries@[i].0@, self.entries@[mid as int].0@, key@);
                        }
                    }
                }
                lo = mid + 1;
            } else {
                proof {
                    assert forall|i: int| mid <= i < self.entries@.len() implies key_lt(key@, #[trigger] self.entries@[i].0@) by {
                        if i > mid {
                            assert(key_lt(self.entries@[mid as int].0@, self.entries@[i].0@));
                            lemma_key_order(key@, self.entries@[mid as int].0@, self.entries@[i].0@);
                        }
                    }
                }
                hi = mid;
            }
        }
        (false, lo)
    }

    /// Whether `key` is present.
    pub fn contains_key(&self, key: &str) -> (r: bool)
        requires
            self.wf(),
        ensures
            r == self.view().contains_key(key@),
    {
        let (found, pos) = self.search(key);
        proof {
            if !found {
                assert forall|i: int| 0 <= i < self.entries@.len() implies self.entries@[i].0@ != key@ by {
                    lemma_key_order(key@, key@, key@);
                }
            } else {
                assert(self.entries@[pos as int].0@ == key@);
            }
        }
        found
    }

    /// The value recorded for `key`, if any.
    pub fn get(&self, key: &str) -> (r: Option<&V>)
        requires
            self.wf(),
        ensures
            r is Some == self.view().contains_key(key@),
            r matches Some(m) ==> *m == self.view()[key@],
    {
        let (found, pos) = self.search(key);
        if found {
            proof {
                self.lemma_view();
                assert(self.key_seq()[pos as int] == key@);
                assert(self.value_seq()[pos as int] == self.entries@[pos as int].1);
                assert(self.view().contains_key(self.key_seq()[pos as int]));
                assert(self.view()[key@] == self.entries@[pos as int].1);
            }
            Some(&self.entries[pos].1)
        } else {
            proof {
                assert forall|i: int| 0 <= i < self.entries@.len() implies self.entries@[i].0@ != key@ by {
                    lemma_key_order(key@, key@, key@);
                }
            }
            None
        }
    }

    /// Inserts or replaces the value of `key` (the later value wins).
    pub fn insert(&mut self, key: String, value: V)
        requires
            old(self).wf(),
        ensures
            final(self).wf(),
            final(self).view() == old(self).view().insert(key@, value),
    {
        let ghost k = key@;
        let (found, pos) = self.search(key.as_str());
        let ghost old_entries = self.entries@;
        proof {
            old(self).lemma_view();
        }
        if found {
            self.entries.set(pos, (key, value));
            proof {
                assert(self.entries@ == old_entries.update(pos as int, (self.entries@[pos as int].0, value)));
                assert forall|i: int, j: int| 0 <= i < j < self.entries@.len() implies key_lt(#[trigger] self.entries@[i].0@, #[trigger] self.entries@[j].0@) by {
                    assert(key_lt(old_entries[i].0@, old_entries[j].0@));
                }
                assert(self.wf());
                self.lemma_view();
                assert forall|k2: Seq<char>| #[trigger] self.view().contains_key(k2) <==> old(self).view().insert(k, value).contains_key(k2) by {
                    if self.view().contains_key(k2) {
                        let i = choose|i: int| 0 <= i < self.key_seq().len() && self.key_seq()[i] == k2;
                        if i != pos {
                            assert(old(self).key_seq()[i] == k2);
                        }
                    }
                    if old(self).view().contains_key(k2) {
                        let i = choose|i: int| 0 <= i < old(self).key_seq().len() && old(self).key_seq()[i] == k2;
                        assert(self.key_seq()[i] == k2);
                    }
                }
                assert forall|k2: Seq<char>| #[trigger] self.view().contains_key(k2) implies self.view()[k2] == old(self).view().insert(k, value)[k2] by {
                    let i = choose|i: int| 0 <= i < self.key_seq().len() && self.key_seq()[i] == k2;
                    if i != pos {
                        assert(old(self).key_seq()[i] == k2);
                        assert(self.value_seq()[i] == old(self).value_seq()[i]);
                        if k2 == k {
                            assert(old(self).key_seq()[pos as int] == k);
                            if i < pos {
                                assert(key_lt(old_entries[i].0@, old_entries[pos as int].0@));
                            } else {
                                assert(key_lt(old_entries[pos as int].0@, old_entries[i].0@));
                            }
                            lemma_key_order(k, k, k);
                        }
                    } else {
                        assert(self.value_seq()[pos as int] == value);
                    }
                }
                assert(self.view() =~= old(self).view().insert(k, value));
            }
        } else {
            self.entries.insert(pos, (key, value));
            proof {
                assert(self.entries@ == old_entries.insert(pos as int, (self.entries@[pos as int].0, value)));
                assert forall|i: int, j: int| 0 <= i < j < self.entries@.len() implies key_lt(#[trigger] self.entries@[i].0@, #[trigger] self.entries@[j].0@) by {
                    if i < pos && j < pos {
                        assert(key_lt(old_entries[i].0@, old_entries[j].0@));
                    } else if i < pos && j == pos {
                    } else if i < pos && j > pos {
                        assert(key_lt(old_entries[i].0@, k));
                        assert(key_lt(k, old_entries[j - 1].0@));
                        lemma_key_order(old_entries[i].0@, k, old_entries[j - 1].0@);
                    } else if i == pos {
                        assert(key_lt(k, old_entries[j - 1].0@));
                    } else {
                        assert(key_lt(old_entries[i - 1].0@, old_entries[j - 1].0@));
                    }
                }
                assert(self.wf());
                self.lemma_view();
                assert forall|k2: Seq<char>| #[trigger] self.view().contains_key(k2) <==> old(self).view().insert(k, value).contains_key(k2) by {
                    if self.view().contains_key(k2) {
                        let i = choose|i: int| 0 <= i < self.key_seq().len() && self.key_seq()[i] == k2;
                        if i < pos {
                            assert(old(self).key_seq()[i] == k2);
                        } else if i > pos {
                            assert(old(self).key_seq()[i - 1] == k2);
                        }
                    }
                    if old(self).view().contains_key(k2) {
                        let i = choose|i: int| 0 <= i < old(self).key_seq().len() && old(self).key_seq()[i] == k2;
                        if i < pos {
                            assert(self.key_seq()[i] == k2);
                        } else {
                            assert(self.key_seq()[i + 1] == k2);
                        }
                    }
                }
                assert forall|k2: Seq<char>| #[trigger] self.view().contains_key(k2) implies self.view()[k2] == old(self).view().insert(k, value)[k2] by {
                    let i = choose|i: int| 0 <= i < self.key_seq().len() && self.key_seq()[i] == k2;
                    if i < pos {
                        assert(old(self).key_seq()[i] == k2);
                        assert(self.value_seq()[i] == old(self).value_seq()[i]);
                        if k2 == k {
                            assert(key_lt(old_entries[i].0@, k));
                            lemma_key_order(k, k, k);
                        }
                    } else if i > pos {
                        assert(old(self).key_seq()[i - 1] == k2);
                        assert(self.value_seq()[i] == old(self).value_seq()[i - 1]);
                        if k2 == k {
                            assert(key_lt(k, old_entries[i - 1].0@));
                            lemma_key_order(k, k, k);
                        }
                    }
                }
                assert(self.view() =~= old(self).view().insert(k, value));
            }
        }
    }

    /// The keys, in order.
    pub fn keys(&self) -> (r: Vec<String>)
        ensures
            r@.map_values(|s: String| s@) == self.key_seq(),
    {
        let mut r: Vec<String> = Vec::new();
        let mut i: usize = 0;
        while i < self.entries.len()
            invariant
                i <= self.entries@.len(),
                r@.map_values(|s: String| s@) == self.key_seq().take(i as int),
            decreases self.entries@.len() - i,
        {
            r.push(self.entries[i].0.clone());
            assert(self.key_seq().take(i + 1) == self.key_seq().take(i as int).push(self.entries@[i as int].0@));
            assert(r@.map_values(|s: String| s@) =~= self.key_seq().take(i + 1));
            i = i + 1;
        }
        assert(self.key_seq().take(self.entries@.len() as int) == self.key_seq());
        r
    }
}


} // verus!
