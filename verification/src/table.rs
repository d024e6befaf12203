//! A table by text key that keeps the order in which its keys came in.
//!
//! It stands where a hash map with text keys would: lookups walk the rows,
//! and no key occurs twice.

use crate::text::same_text;
use vstd::prelude::*;

verus! {

/// A table by key, in the order in which the keys came in. No key has two
/// entries.
pub struct KeyedTable<T> {
    rows: Vec<(String, T)>,
}

/// Whether row `i` of `rows` is the row of `key`.
pub open spec fn is_row_of<T>(rows: Seq<(String, T)>, key: Seq<char>, i: int) -> bool {
    0 <= i < rows.len() && rows[i].0@ == key
}

/// Whether no key has two rows.
pub open spec fn distinct_keys<T>(rows: Seq<(String, T)>) -> bool {
    forall|i: int, j: int| 0 <= i < j < rows.len() ==> rows[i].0@ != rows[j].0@
}

/// The rows as a map from key to entry.
pub open spec fn rows_view<T>(rows: Seq<(String, T)>) -> Map<Seq<char>, T> {
    Map::new(
        |key: Seq<char>| exists|i: int| is_row_of(rows, key, i),
        |key: Seq<char>| rows[choose|i: int| is_row_of(rows, key, i)].1,
    )
}

/// In rows with distinct keys, the row of a key maps the key to its
/// entry.
pub proof fn lemma_row_is_mapped<T>(rows: Seq<(String, T)>, i: int)
    requires
        distinct_keys(rows),
        0 <= i < rows.len(),
    ensures
        rows_view(rows).contains_key(rows[i].0@),
        rows_view(rows)[rows[i].0@] == rows[i].1,
{
    let key = rows[i].0@;
    assert(is_row_of(rows, key, i));
    let k = choose|k: int| is_row_of(rows, key, k);
    assert(k == i) by {
        if k < i {
            assert(rows[k].0@ != rows[i].0@);
        } else if i < k {
            assert(rows[i].0@ != rows[k].0@);
        }
    }
}

/// Rows with distinct keys map as many keys as there are rows.
pub proof fn lemma_rows_are_counted<T>(rows: Seq<(String, T)>)
    requires
        distinct_keys(rows),
    ensures
        rows_view(rows).dom().finite(),
        rows_view(rows).dom().len() == rows.len(),
{
    let keys = Seq::new(rows.len(), |i: int| rows[i].0@);
    assert(keys.no_duplicates());
    keys.unique_seq_to_set();
    assert(keys.to_set() =~= rows_view(rows).dom()) by {
        assert forall|key: Seq<char>| keys.to_set().contains(key) implies rows_view(
            rows,
        ).dom().contains(key) by {
            let i = choose|i: int| 0 <= i < keys.len() && keys[i] == key;
            assert(is_row_of(rows, key, i));
        }
        assert forall|key: Seq<char>|
            rows_view(rows).dom().contains(key) implies keys.to_set().contains(key) by {
            let i = choose|i: int| is_row_of(rows, key, i);
            assert(keys[i] == key);
        }
    }
}

impl<T> View for KeyedTable<T> {
    type V = Map<Seq<char>, T>;

    closed spec fn view(&self) -> Map<Seq<char>, T> {
        rows_view(self.rows@)
    }
}

impl<T> KeyedTable<T> {
    #[verifier::type_invariant]
    spec fn well_formed(&self) -> bool {
        distinct_keys(self.rows@)
    }

    /// The number of rows of the table.
    pub closed spec fn count(&self) -> nat {
        self.rows@.len()
    }

    /// The key of the row `i`, in the order in which the keys came in.
    pub closed spec fn key_at(&self, i: int) -> Seq<char> {
        self.rows@[i].0@
    }

    /// The entry of the row `i`.
    pub closed spec fn entry_at(&self, i: int) -> T {
        self.rows@[i].1
    }

    /// The keys of the table are the keys of its rows.
    pub proof fn lemma_rows_cover(&self, key: Seq<char>)
        ensures
            self@.contains_key(key) <==> exists|i: int|
                0 <= i < self.count() && self.key_at(i) == key,
    {
        if self@.contains_key(key) {
            let i = choose|i: int| is_row_of(self.rows@, key, i);
            assert(0 <= i < self.count() && self.key_at(i) == key);
        }
        if exists|i: int| 0 <= i < self.count() && self.key_at(i) == key {
            let i = choose|i: int| 0 <= i < self.count() && self.key_at(i) == key;
            assert(is_row_of(self.rows@, key, i));
        }
    }

    /// A table without entries.
    pub fn new() -> (r: Self)
        ensures
            r@ == Map::<Seq<char>, T>::empty(),
            r.count() == 0,
    {
        let r = KeyedTable { rows: Vec::new() };
        assert(r@ =~= Map::<Seq<char>, T>::empty());
        r
    }

    /// The number of keys in the table.
    pub fn len(&self) -> (r: usize)
        ensures
            r == self.count(),
            self@.dom().finite(),
            self@.dom().len() == r,
    {
        proof {
            use_type_invariant(self);
            lemma_rows_are_counted(self.rows@);
        }
        self.rows.len()
    }

    /// The key and the entry of the row `i`.
    pub fn row(&self, i: usize) -> (r: (&String, &T))
        requires
            i < self.count(),
        ensures
            r.0@ == self.key_at(i as int),
            *r.1 == self.entry_at(i as int),
            self@.contains_key(r.0@),
            self@[r.0@] == *r.1,
    {
        proof {
            use_type_invariant(self);
            lemma_row_is_mapped(self.rows@, i as int);
        }
        (&self.rows[i].0, &self.rows[i].1)
    }

    /// The index of the row of `key`.
    fn position(&self, key: &str) -> (r: Option<usize>)
        ensures
            match r {
                Some(i) => is_row_of(self.rows@, key@, i as int),
                None => forall|j: int| !is_row_of(self.rows@, key@, j),
            },
    {
        let mut i: usize = 0;
        while i < self.rows.len()
            invariant
                i <= self.rows@.len(),
                forall|j: int| 0 <= j < i ==> self.rows@[j].0@ != key@,
            decreases self.rows@.len() - i,
        {
            if same_text(self.rows[i].0.as_str(), key) {
                return Some(i);
            }
            i += 1;
        }
        None
    }

    /// The entry of `key`.
    pub fn get(&self, key: &str) -> (r: Option<&T>)
        ensures
            match r {
                Some(entry) => self@.contains_key(key@) && self@[key@] == *entry,
                None => !self@.contains_key(key@),
            },
    {
        match self.position(key) {
            Some(i) => {
                proof {
                    use_type_invariant(self);
                    lemma_row_is_mapped(self.rows@, i as int);
                }
                Some(&self.rows[i].1)
            },
            None => None,
        }
    }

    /// Whether the table has an entry for `key`.
    pub fn contains(&self, key: &str) -> (r: bool)
        ensures
            r == self@.contains_key(key@),
    {
        self.get(key).is_some()
    }

    /// Sets the entry of `key`, in place of the one it had.
    pub fn insert(&mut self, key: String, entry: T)
        ensures
            final(self)@ == old(self)@.insert(key@, entry),
            final(self).count() == old(self).count() + if old(self)@.contains_key(key@) {
                0int
            } else {
                1int
            },
    {
        proof {
            use_type_invariant(&*self);
        }
        let ghost before = self.rows@;
        let ghost name = key@;
        let ghost value = entry;
        let found = self.position(key.as_str());
        let mut rows: Vec<(String, T)> = Vec::new();
        core::mem::swap(&mut self.rows, &mut rows);
        match found {
            Some(i) => {
                rows.set(i, (key, entry));
                let ghost after = rows@;
                assert(distinct_keys(after)) by {
                    assert forall|a: int, b: int| 0 <= a < b < after.len() implies after[a].0@
                        != after[b].0@ by {
                        assert(after[a].0@ == before[a].0@);
                        assert(after[b].0@ == before[b].0@);
                    }
                }
                assert(rows_view(after) =~= rows_view(before).insert(name, value)) by {
                    assert forall|d: Seq<char>| rows_view(after).contains_key(d) implies rows_view(
                        before,
                    ).insert(name, value).contains_key(d) by {
                        let k = choose|k: int| is_row_of(after, d, k);
                        assert(is_row_of(before, before[k].0@, k));
                    }
                    assert forall|d: Seq<char>|
                        rows_view(before).insert(name, value).contains_key(
                            d,
                        ) implies rows_view(after).contains_key(d) by {
                        if d == name {
                            assert(is_row_of(after, d, i as int));
                        } else {
                            let k = choose|k: int| is_row_of(before, d, k);
                            assert(is_row_of(after, d, k));
                        }
                    }
                    assert forall|d: Seq<char>| rows_view(after).contains_key(d) implies rows_view(
                        after,
                    )[d] == rows_view(before).insert(name, value)[d] by {
                        let k = choose|k: int| is_row_of(after, d, k);
                        lemma_row_is_mapped(after, k);
                        if k != i {
                            lemma_row_is_mapped(before, k);
                        }
                    }
                }
                assert(rows_view(before).contains_key(name)) by {
                    assert(is_row_of(before, name, i as int));
                }
            },
            None => {
                rows.push((key, entry));
                let ghost after = rows@;
                let ghost n = before.len() as int;
                assert(distinct_keys(after)) by {
                    assert forall|a: int, b: int| 0 <= a < b < after.len() implies after[a].0@
                        != after[b].0@ by {
                        if b == n {
                            assert(!is_row_of(before, name, a));
                        }
                    }
                }
                assert(rows_view(after) =~= rows_view(before).insert(name, value)) by {
                    assert forall|d: Seq<char>| rows_view(after).contains_key(d) implies rows_view(
                        before,
                    ).insert(name, value).contains_key(d) by {
                        let k = choose|k: int| is_row_of(after, d, k);
                        if k < n {
                            assert(is_row_of(before, d, k));
                        }
                    }
                    assert forall|d: Seq<char>|
                        rows_view(before).insert(name, value).contains_key(
                            d,
                        ) implies rows_view(after).contains_key(d) by {
                        if d == name {
                            assert(is_row_of(after, d, n));
                        } else {
                            let k = choose|k: int| is_row_of(before, d, k);
                            assert(is_row_of(after, d, k));
                        }
                    }
                    assert forall|d: Seq<char>| rows_view(after).contains_key(d) implies rows_view(
                        after,
                    )[d] == rows_view(before).insert(name, value)[d] by {
                        let k = choose|k: int| is_row_of(after, d, k);
                        lemma_row_is_mapped(after, k);
                        if k < n {
                            lemma_row_is_mapped(before, k);
                        }
                    }
                }
                assert(!rows_view(before).contains_key(name)) by {
                    assert forall|j: int| !is_row_of(before, name, j) by {}
                }
            },
        }
        self.rows = rows;
    }
}

} // verus!
