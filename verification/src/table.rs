//! An insertion-ordered table with unique keys, and the row-level functions that model it.

use vstd::prelude::*;

verus! {

/// A value that can be copied, the copy standing for the same thing.
pub trait Stored: View + Sized {
    /// A copy of the value.
    fn duplicate(&self) -> (copy: Self)
        ensures
            copy@ == self@,
    ;
}

/// A key that can be compared by what it stands for.
pub trait Keyed: Stored {
    /// Whether two keys stand for the same thing.
    fn matches(&self, other: &Self) -> (same: bool)
        ensures
            same == (self@ == other@),
    ;
}

/// Whether some row of `rows` has the key `k`.
pub open spec fn has_key<A, B>(rows: Seq<(A, B)>, k: A) -> bool {
    exists|i: int| 0 <= i < rows.len() && (#[trigger] rows[i]).0 == k
}

/// The position of a row with the key `k`, where there is one.
pub open spec fn index_of<A, B>(rows: Seq<(A, B)>, k: A) -> int {
    choose|i: int| 0 <= i < rows.len() && (#[trigger] rows[i]).0 == k
}

/// No two rows share a key.
pub open spec fn distinct_keys<A, B>(rows: Seq<(A, B)>) -> bool {
    forall|i: int, j: int|
        0 <= i < rows.len() && 0 <= j < rows.len() && i != j ==> (#[trigger] rows[i]).0 != (
        #[trigger] rows[j]).0
}

/// The value stored under `k`, if any.
pub open spec fn lookup<A, B>(rows: Seq<(A, B)>, k: A) -> Option<B> {
    if has_key(rows, k) {
        Some(rows[index_of(rows, k)].1)
    } else {
        None
    }
}

/// The rows after `v` is stored under `k`: in place where the key exists, else at the end.
pub open spec fn put<A, B>(rows: Seq<(A, B)>, k: A, v: B) -> Seq<(A, B)> {
    if has_key(rows, k) {
        rows.update(index_of(rows, k), (k, v))
    } else {
        rows.push((k, v))
    }
}

/// The rows without the one under `k`; the others keep their order.
pub open spec fn delete<A, B>(rows: Seq<(A, B)>, k: A) -> Seq<(A, B)> {
    if has_key(rows, k) {
        rows.remove(index_of(rows, k))
    } else {
        rows
    }
}

/// Whether what was found shows what is stored: nothing where nothing is stored, and else a
/// value that stands for the stored one.
pub open spec fn shows<T: View>(found: Option<T>, stored: Option<T::V>) -> bool {
    match (found, stored) {
        (Some(value), Some(expected)) => value@ == expected,
        (None, None) => true,
        _ => false,
    }
}

/// With distinct keys, the row that has a key is the one that `index_of` names.
pub proof fn lemma_index_unique<A, B>(rows: Seq<(A, B)>, k: A, i: int)
    requires
        distinct_keys(rows),
        0 <= i < rows.len(),
        rows[i].0 == k,
    ensures
        has_key(rows, k),
        index_of(rows, k) == i,
        lookup(rows, k) == Some(rows[i].1),
{
    let j = index_of(rows, k);
    assert(0 <= j < rows.len() && rows[j].0 == k);
}

/// A key that is present has its index within the rows.
pub proof fn lemma_index_in_range<A, B>(rows: Seq<(A, B)>, k: A)
    requires
        has_key(rows, k),
    ensures
        0 <= index_of(rows, k) < rows.len(),
        rows[index_of(rows, k)].0 == k,
{
}

/// Storing a value keeps the keys distinct and changes the lookup of that key alone.
pub proof fn lemma_put<A, B>(rows: Seq<(A, B)>, k: A, v: B)
    requires
        distinct_keys(rows),
    ensures
        distinct_keys(put(rows, k, v)),
        lookup(put(rows, k, v), k) == Some(v),
        forall|other: A| other != k ==> lookup(put(rows, k, v), other) == lookup(rows, other),
        forall|other: A| has_key(put(rows, k, v), other) == (other == k || has_key(rows, other)),
        put(rows, k, v).len() == rows.len() + (if has_key(rows, k) { 0int } else { 1int }),
{
    let after = put(rows, k, v);
    if has_key(rows, k) {
        let at = index_of(rows, k);
        assert(after[at] == (k, v));
        assert forall|i: int, j: int|
            0 <= i < after.len() && 0 <= j < after.len() && i != j implies (#[trigger] after[i]).0
            != (#[trigger] after[j]).0 by {
            assert(after[i].0 == rows[i].0);
            assert(after[j].0 == rows[j].0);
        }
        lemma_index_unique(after, k, at);
        assert forall|other: A| has_key(after, other) == (other == k || has_key(rows, other)) by {
            if has_key(after, other) {
                let i = index_of(after, other);
                assert(rows[i].0 == after[i].0);
            }
            if has_key(rows, other) {
                let i = index_of(rows, other);
                assert(after[i].0 == rows[i].0);
            }
        }
        assert forall|other: A| other != k implies lookup(after, other) == lookup(rows, other) by {
            if has_key(rows, other) {
                let i = index_of(rows, other);
                assert(i != at);
                assert(after[i] == rows[i]);
                lemma_index_unique(after, other, i);
            }
        }
    } else {
        let at = rows.len() as int;
        assert(after[at] == (k, v));
        assert forall|i: int, j: int|
            0 <= i < after.len() && 0 <= j < after.len() && i != j implies (#[trigger] after[i]).0
            != (#[trigger] after[j]).0 by {
            if i < at {
                assert(after[i] == rows[i]);
            }
            if j < at {
                assert(after[j] == rows[j]);
            }
        }
        lemma_index_unique(after, k, at);
        assert forall|other: A| has_key(after, other) == (other == k || has_key(rows, other)) by {
            if has_key(after, other) {
                let i = index_of(after, other);
                if i < at {
                    assert(rows[i] == after[i]);
                }
            }
            if has_key(rows, other) {
                let i = index_of(rows, other);
                assert(after[i] == rows[i]);
            }
        }
        assert forall|other: A| other != k implies lookup(after, other) == lookup(rows, other) by {
            if has_key(rows, other) {
                let i = index_of(rows, other);
                assert(after[i] == rows[i]);
                lemma_index_unique(after, other, i);
            }
        }
    }
}

/// Deleting a key keeps the keys distinct and changes the lookup of that key alone.
pub proof fn lemma_delete<A, B>(rows: Seq<(A, B)>, k: A)
    requires
        distinct_keys(rows),
    ensures
        distinct_keys(delete(rows, k)),
        lookup(delete(rows, k), k) == None::<B>,
        forall|other: A| other != k ==> lookup(delete(rows, k), other) == lookup(rows, other),
        forall|other: A| has_key(delete(rows, k), other) == (other != k && has_key(rows, other)),
        delete(rows, k).len() == rows.len() - (if has_key(rows, k) { 1int } else { 0int }),
{
    let after = delete(rows, k);
    if has_key(rows, k) {
        let at = index_of(rows, k);
        assert forall|i: int| 0 <= i < after.len() implies #[trigger] after[i] == rows[if i < at {
            i
        } else {
            i + 1
        }] by {}
        assert forall|i: int, j: int|
            0 <= i < after.len() && 0 <= j < after.len() && i != j implies (#[trigger] after[i]).0
            != (#[trigger] after[j]).0 by {
            let si = if i < at { i } else { i + 1 };
            let sj = if j < at { j } else { j + 1 };
            assert(after[i] == rows[si]);
            assert(after[j] == rows[sj]);
        }
        assert forall|other: A| has_key(after, other) == (other != k && has_key(rows, other)) by {
            if has_key(after, other) {
                let i = index_of(after, other);
                let si = if i < at { i } else { i + 1 };
                assert(after[i] == rows[si]);
                assert(si != at);
            }
            if other != k && has_key(rows, other) {
                let i = index_of(rows, other);
                assert(i != at);
                let ti = if i < at { i } else { i - 1 };
                assert(after[ti] == rows[i]);
            }
        }
        assert forall|other: A| other != k implies lookup(after, other) == lookup(rows, other) by {
            if has_key(rows, other) {
                let i = index_of(rows, other);
                assert(i != at);
                let ti = if i < at { i } else { i - 1 };
                assert(after[ti] == rows[i]);
                lemma_index_unique(after, other, ti);
            }
        }
    }
}

/// Each row after a value is stored under a key is the new row, or an earlier row at the same
/// place under another key.
pub proof fn lemma_put_each<A, B>(rows: Seq<(A, B)>, k: A, v: B, i: int)
    requires
        distinct_keys(rows),
        0 <= i < put(rows, k, v).len(),
    ensures
        put(rows, k, v)[i] == (k, v) || (i < rows.len() && put(rows, k, v)[i] == rows[i]
            && rows[i].0 != k),
{
    if has_key(rows, k) {
        let at = index_of(rows, k);
        if i != at {
            assert(put(rows, k, v)[i] == rows[i]);
        }
    } else if i < rows.len() {
        assert(put(rows, k, v)[i] == rows[i]);
    }
}

/// The place that the row at `i` had before a key was deleted.
pub open spec fn place_before_delete<A, B>(rows: Seq<(A, B)>, k: A, i: int) -> int {
    if has_key(rows, k) && i >= index_of(rows, k) {
        i + 1
    } else {
        i
    }
}

/// Each row after a key is deleted is an earlier row under another key.
pub proof fn lemma_delete_each<A, B>(rows: Seq<(A, B)>, k: A, i: int)
    requires
        distinct_keys(rows),
        0 <= i < delete(rows, k).len(),
    ensures
        0 <= place_before_delete(rows, k, i) < rows.len(),
        delete(rows, k)[i] == rows[place_before_delete(rows, k, i)],
        rows[place_before_delete(rows, k, i)].0 != k,
{
    if has_key(rows, k) {
        let at = index_of(rows, k);
        let j = place_before_delete(rows, k, i);
        assert(delete(rows, k)[i] == rows[j]);
        assert(j != at);
    } else {
        assert(delete(rows, k)[i] == rows[i]);
    }
}

/// An insertion-ordered table with unique keys.
pub struct Table<K, V> {
    entries: Vec<(K, V)>,
}

impl<K: Keyed, V: Stored> Table<K, V> {
    /// The rows of the table, in insertion order, each key and value by its view.
    pub closed spec fn rows(&self) -> Seq<(K::V, V::V)> {
        self.entries@.map_values(|e: (K, V)| (e.0@, e.1@))
    }

    /// The table's invariant: no key occurs twice.
    pub open spec fn wf(&self) -> bool {
        distinct_keys(self.rows())
    }

    /// An empty table.
    pub fn new() -> (table: Self)
        ensures
            table.wf(),
            table.rows().len() == 0,
    {
        Table { entries: Vec::new() }
    }

    /// The number of rows.
    pub fn len(&self) -> (n: usize)
        ensures
            n == self.rows().len(),
    {
        self.entries.len()
    }

    /// The key of the row at `i`.
    pub fn key_at(&self, i: usize) -> (key: &K)
        requires
            i < self.rows().len(),
        ensures
            key@ == self.rows()[i as int].0,
    {
        &self.entries[i].0
    }

    /// The value of the row at `i`.
    pub fn value_at(&self, i: usize) -> (value: &V)
        requires
            i < self.rows().len(),
        ensures
            value@ == self.rows()[i as int].1,
    {
        &self.entries[i].1
    }

    /// The position of the row under `key`, if there is one.
    pub fn position(&self, key: &K) -> (found: Option<usize>)
        requires
            self.wf(),
        ensures
            found is Some == has_key(self.rows(), key@),
            found matches Some(i) ==> i == index_of(self.rows(), key@) && i < self.rows().len(),
    {
        let mut i: usize = 0;
        while i < self.entries.len()
            invariant
                self.wf(),
                i <= self.entries.len(),
                forall|j: int| 0 <= j < i ==> (#[trigger] self.rows()[j]).0 != key@,
            decreases self.entries.len() - i,
        {
            if self.entries[i].0.matches(key) {
                proof {
                    lemma_index_unique(self.rows(), key@, i as int);
                }
                return Some(i);
            }
            i += 1;
        }
        None
    }

    /// Whether a row is stored under `key`.
    pub fn contains_key(&self, key: &K) -> (present: bool)
        requires
            self.wf(),
        ensures
            present == has_key(self.rows(), key@),
    {
        self.position(key).is_some()
    }

    /// The value stored under `key`, if any.
    pub fn get(&self, key: &K) -> (found: Option<&V>)
        requires
            self.wf(),
        ensures
            found is Some == has_key(self.rows(), key@),
            found matches Some(v) ==> lookup(self.rows(), key@) == Some(v@),
    {
        match self.position(key) {
            Some(i) => Some(&self.entries[i].1),
            None => None,
        }
    }

    /// Stores `value` under `key`, in place of what was there.
    pub fn insert(&mut self, key: K, value: V)
        requires
            old(self).wf(),
        ensures
            final(self).wf(),
            final(self).rows() == put(old(self).rows(), key@, value@),
    {
        proof {
            lemma_put(self.rows(), key@, value@);
        }
        match self.position(&key) {
            Some(i) => {
                self.entries.set(i, (key, value));
                assert(self.rows() =~= put(old(self).rows(), key@, value@));
            },
            None => {
                self.entries.push((key, value));
                assert(self.rows() =~= put(old(self).rows(), key@, value@));
            },
        }
    }

    /// Takes out the row under `key` and returns its value, if there was one.
    pub fn remove(&mut self, key: &K) -> (taken: Option<V>)
        requires
            old(self).wf(),
        ensures
            final(self).wf(),
            final(self).rows() == delete(old(self).rows(), key@),
            taken is Some == has_key(old(self).rows(), key@),
            taken matches Some(v) ==> lookup(old(self).rows(), key@) == Some(v@),
    {
        proof {
            lemma_delete(self.rows(), key@);
        }
        match self.position(key) {
            Some(i) => {
                let entry = self.entries.remove(i);
                assert(self.rows() =~= delete(old(self).rows(), key@));
                Some(entry.1)
            },
            None => None,
        }
    }
}

impl<K: Keyed, V: Stored> Clone for Table<K, V> {
    fn clone(&self) -> (copy: Self)
        ensures
            copy.rows() == self.rows(),
    {
        let mut entries: Vec<(K, V)> = Vec::new();
        let mut i: usize = 0;
        while i < self.entries.len()
            invariant
                i <= self.entries.len(),
                entries.len() == i,
                forall|j: int|
                    0 <= j < i ==> (#[trigger] entries@[j]).0@ == self.entries@[j].0@
                        && entries@[j].1@ == self.entries@[j].1@,
            decreases self.entries.len() - i,
        {
            entries.push((self.entries[i].0.duplicate(), self.entries[i].1.duplicate()));
            i += 1;
        }
        let copy = Table { entries };
        assert(copy.rows() =~= self.rows());
        copy
    }
}

} // verus!
