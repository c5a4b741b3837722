//! A keyed table: rows held in insertion order, at most one row per key.
//!
//! A table is read in two ways. Its view is the map from each key to the row
//! stored under it, which is what the contracts of the operations speak of.
//! Its row sequence is what a scan walks, index by index. The two always
//! agree: every row of the sequence is the view's value at that row's key, and
//! every key of the view belongs to exactly one row of the sequence.

use vstd::prelude::*;

verus! {

/// A record that can be stored in a [`Table`].
pub trait Row: View + Sized {
    /// The type of the primary key.
    type Key;

    /// The primary key of a row, read off its view.
    spec fn key_of(v: Self::V) -> Self::Key;

    /// Whether this row is the one stored under `key`.
    fn has_key(&self, key: &Self::Key) -> (b: bool)
        ensures
            b == (Self::key_of(self@) == *key),
    ;
}

/// Whether some row of `rows` has the key `key`.
pub open spec fn holds_key<R: Row>(rows: Seq<R::V>, key: R::Key) -> bool {
    exists|i: int| 0 <= i < rows.len() && R::key_of(#[trigger] rows[i]) == key
}

/// The position of a row with the key `key`, where there is one.
pub open spec fn position_of<R: Row>(rows: Seq<R::V>, key: R::Key) -> int {
    choose|i: int| 0 <= i < rows.len() && R::key_of(#[trigger] rows[i]) == key
}

/// No two rows of `rows` share a key.
pub open spec fn distinct_keys<R: Row>(rows: Seq<R::V>) -> bool {
    forall|i: int, j: int|
        0 <= i < j < rows.len() ==> R::key_of(#[trigger] rows[i]) != R::key_of(#[trigger] rows[j])
}

/// The map from each key that occurs in `rows` to its row.
pub open spec fn keyed<R: Row>(rows: Seq<R::V>) -> Map<R::Key, R::V> {
    Map::new(|k: R::Key| holds_key::<R>(rows, k), |k: R::Key| rows[position_of::<R>(rows, k)])
}

/// Each row is the value that the map holds at the row's own key.
pub proof fn lemma_keyed_row<R: Row>(rows: Seq<R::V>, i: int)
    requires
        distinct_keys::<R>(rows),
        0 <= i < rows.len(),
    ensures
        keyed::<R>(rows).contains_key(R::key_of(rows[i])),
        keyed::<R>(rows)[R::key_of(rows[i])] == rows[i],
{
    let k = R::key_of(rows[i]);
    assert(holds_key::<R>(rows, k));
    let j = position_of::<R>(rows, k);
    assert(0 <= j < rows.len() && R::key_of(rows[j]) == k);
    if j < i {
        assert(R::key_of(rows[j]) != R::key_of(rows[i]));
    } else if i < j {
        assert(R::key_of(rows[i]) != R::key_of(rows[j]));
    }
}

/// Each key of the map belongs to a row, and the map holds that row.
pub proof fn lemma_keyed_key<R: Row>(rows: Seq<R::V>, key: R::Key) -> (i: int)
    requires
        keyed::<R>(rows).contains_key(key),
    ensures
        0 <= i < rows.len(),
        R::key_of(rows[i]) == key,
        keyed::<R>(rows)[key] == rows[i],
{
    assert(holds_key::<R>(rows, key));
    position_of::<R>(rows, key)
}

/// Appending a row with a new key inserts it into the map.
pub proof fn lemma_keyed_push<R: Row>(rows: Seq<R::V>, row: R::V)
    requires
        distinct_keys::<R>(rows),
        !keyed::<R>(rows).contains_key(R::key_of(row)),
    ensures
        distinct_keys::<R>(rows.push(row)),
        keyed::<R>(rows.push(row)) == keyed::<R>(rows).insert(R::key_of(row), row),
{
    let after = rows.push(row);
    let n = rows.len() as int;
    assert forall|i: int, j: int| 0 <= i < j < after.len() implies R::key_of(
        #[trigger] after[i],
    ) != R::key_of(#[trigger] after[j]) by {
        if j == n {
            assert(after[i] == rows[i]);
            if R::key_of(rows[i]) == R::key_of(row) {
                assert(holds_key::<R>(rows, R::key_of(row)));
            }
        } else {
            assert(after[i] == rows[i] && after[j] == rows[j]);
        }
    }
    let expected = keyed::<R>(rows).insert(R::key_of(row), row);
    assert forall|k: R::Key| keyed::<R>(after).contains_key(k) implies #[trigger] expected.contains_key(
        k,
    ) && expected[k] == keyed::<R>(after)[k] by {
        let i = lemma_keyed_key::<R>(after, k);
        if i < n {
            assert(after[i] == rows[i]);
            lemma_keyed_row::<R>(rows, i);
            if k == R::key_of(row) {
                assert(false);
            }
        }
    }
    assert forall|k: R::Key| expected.contains_key(k) implies #[trigger] keyed::<R>(
        after,
    ).contains_key(k) by {
        if k == R::key_of(row) {
            assert(after[n] == row);
            lemma_keyed_row::<R>(after, n);
        } else {
            let i = lemma_keyed_key::<R>(rows, k);
            assert(after[i] == rows[i]);
            lemma_keyed_row::<R>(after, i);
        }
    }
    assert(keyed::<R>(after) =~= expected);
}

/// Taking a row out removes its key from the map and nothing else.
pub proof fn lemma_keyed_remove<R: Row>(rows: Seq<R::V>, at: int)
    requires
        distinct_keys::<R>(rows),
        0 <= at < rows.len(),
    ensures
        distinct_keys::<R>(rows.remove(at)),
        keyed::<R>(rows.remove(at)) == keyed::<R>(rows).remove(R::key_of(rows[at])),
{
    let after = rows.remove(at);
    let gone = R::key_of(rows[at]);
    assert forall|i: int| 0 <= i < after.len() implies #[trigger] after[i] == rows[if i < at {
        i
    } else {
        i + 1
    }] by {}
    assert forall|i: int, j: int| 0 <= i < j < after.len() implies R::key_of(
        #[trigger] after[i],
    ) != R::key_of(#[trigger] after[j]) by {
        let oi = if i < at { i } else { i + 1 };
        let oj = if j < at { j } else { j + 1 };
        assert(after[i] == rows[oi] && after[j] == rows[oj]);
        assert(R::key_of(rows[oi]) != R::key_of(rows[oj]));
    }
    let expected = keyed::<R>(rows).remove(gone);
    assert forall|k: R::Key| keyed::<R>(after).contains_key(k) implies #[trigger] expected.contains_key(
        k,
    ) && expected[k] == keyed::<R>(after)[k] by {
        let i = lemma_keyed_key::<R>(after, k);
        let oi = if i < at { i } else { i + 1 };
        assert(after[i] == rows[oi]);
        lemma_keyed_row::<R>(rows, oi);
        if oi < at {
            assert(R::key_of(rows[oi]) != R::key_of(rows[at]));
        } else {
            assert(R::key_of(rows[at]) != R::key_of(rows[oi]));
        }
    }
    assert forall|k: R::Key| expected.contains_key(k) implies #[trigger] keyed::<R>(
        after,
    ).contains_key(k) by {
        let oi = lemma_keyed_key::<R>(rows, k);
        let i = if oi < at { oi } else { oi - 1 };
        assert(after[i] == rows[oi]);
        lemma_keyed_row::<R>(after, i);
    }
    assert(keyed::<R>(after) =~= expected);
}

/// Replacing a row by one with the same key overwrites that key in the map.
pub proof fn lemma_keyed_update<R: Row>(rows: Seq<R::V>, at: int, row: R::V)
    requires
        distinct_keys::<R>(rows),
        0 <= at < rows.len(),
        R::key_of(row) == R::key_of(rows[at]),
    ensures
        distinct_keys::<R>(rows.update(at, row)),
        keyed::<R>(rows.update(at, row)) == keyed::<R>(rows).insert(R::key_of(row), row),
{
    let after = rows.update(at, row);
    assert forall|i: int, j: int| 0 <= i < j < after.len() implies R::key_of(
        #[trigger] after[i],
    ) != R::key_of(#[trigger] after[j]) by {
        assert(R::key_of(after[i]) == R::key_of(rows[i]));
        assert(R::key_of(after[j]) == R::key_of(rows[j]));
    }
    let expected = keyed::<R>(rows).insert(R::key_of(row), row);
    assert forall|k: R::Key| keyed::<R>(after).contains_key(k) implies #[trigger] expected.contains_key(
        k,
    ) && expected[k] == keyed::<R>(after)[k] by {
        let i = lemma_keyed_key::<R>(after, k);
        if i != at {
            assert(after[i] == rows[i]);
            lemma_keyed_row::<R>(rows, i);
            if i < at {
                assert(R::key_of(rows[i]) != R::key_of(rows[at]));
            } else {
                assert(R::key_of(rows[at]) != R::key_of(rows[i]));
            }
        }
    }
    assert forall|k: R::Key| expected.contains_key(k) implies #[trigger] keyed::<R>(
        after,
    ).contains_key(k) by {
        if k == R::key_of(row) {
            lemma_keyed_row::<R>(after, at);
        } else {
            let i = lemma_keyed_key::<R>(rows, k);
            assert(after[i] == rows[i]);
            lemma_keyed_row::<R>(after, i);
        }
    }
    assert(keyed::<R>(after) =~= expected);
}

/// Rows in insertion order, at most one per key.
#[derive(Clone, Debug, PartialEq, Eq)]
pub struct Table<R> {
    rows: Vec<R>,
}

impl<R: Row> View for Table<R> {
    type V = Map<R::Key, R::V>;

    /// The map from each stored key to its row.
    open spec fn view(&self) -> Map<R::Key, R::V> {
        keyed::<R>(self.rows())
    }
}

impl<R: Row> Table<R> {
    /// The views of the rows, in the order in which a scan meets them.
    pub closed spec fn rows(&self) -> Seq<R::V> {
        Seq::new(self.rows@.len(), |i: int| self.rows@[i]@)
    }

    /// No key is stored twice.
    pub open spec fn wf(&self) -> bool {
        distinct_keys::<R>(self.rows())
    }

    /// An empty table.
    pub fn new() -> (table: Self)
        ensures
            table.wf(),
            table.rows() == Seq::<R::V>::empty(),
            table@ == Map::<R::Key, R::V>::empty(),
    {
        let table = Table { rows: Vec::new() };
        assert(table.rows() =~= Seq::<R::V>::empty());
        assert(table@ =~= Map::<R::Key, R::V>::empty());
        table
    }

    /// The number of rows.
    pub fn len(&self) -> (n: usize)
        ensures
            n == self.rows().len(),
    {
        self.rows.len()
    }

    /// The row that a scan meets at position `i`.
    pub fn row(&self, i: usize) -> (row: &R)
        requires
            self.wf(),
            i < self.rows().len(),
        ensures
            row@ == self.rows()[i as int],
            self@.contains_key(R::key_of(row@)),
            self@[R::key_of(row@)] == row@,
    {
        proof {
            lemma_keyed_row::<R>(self.rows(), i as int);
        }
        &self.rows[i]
    }

    /// Where the row stored under `key` stands, if there is one.
    pub fn position(&self, key: &R::Key) -> (found: Option<usize>)
        requires
            self.wf(),
        ensures
            match found {
                Some(i) => i < self.rows().len() && R::key_of(self.rows()[i as int]) == *key
                    && self@.contains_key(*key) && self@[*key] == self.rows()[i as int],
                None => !self@.contains_key(*key),
            },
    {
        let mut i: usize = 0;
        while i < self.rows.len()
            invariant
                self.wf(),
                i <= self.rows@.len(),
                forall|j: int| 0 <= j < i ==> R::key_of(#[trigger] self.rows()[j]) != *key,
            decreases self.rows@.len() - i,
        {
            if self.rows[i].has_key(key) {
                proof {
                    lemma_keyed_row::<R>(self.rows(), i as int);
                }
                return Some(i);
            }
            i += 1;
        }
        proof {
            if self@.contains_key(*key) {
                let j = lemma_keyed_key::<R>(self.rows(), *key);
                assert(R::key_of(self.rows()[j]) != *key);
            }
        }
        None
    }

    /// Whether a row is stored under `key`.
    pub fn contains_key(&self, key: &R::Key) -> (b: bool)
        requires
            self.wf(),
        ensures
            b == self@.contains_key(*key),
    {
        self.position(key).is_some()
    }

    /// The row stored under `key`, if there is one.
    pub fn get(&self, key: &R::Key) -> (found: Option<&R>)
        requires
            self.wf(),
        ensures
            match found {
                Some(row) => self@.contains_key(*key) && self@[*key] == row@,
                None => !self@.contains_key(*key),
            },
    {
        match self.position(key) {
            Some(i) => Some(&self.rows[i]),
            None => None,
        }
    }

    /// Appends a row whose key is not stored yet.
    pub fn insert(&mut self, row: R)
        requires
            old(self).wf(),
            !old(self)@.contains_key(R::key_of(row@)),
        ensures
            final(self).wf(),
            final(self).rows() == old(self).rows().push(row@),
            final(self)@ == old(self)@.insert(R::key_of(row@), row@),
    {
        proof {
            lemma_keyed_push::<R>(self.rows(), row@);
        }
        self.rows.push(row);
        assert(self.rows() =~= old(self).rows().push(row@));
    }

    /// Takes out the row at position `i`; the rows behind it move up by one.
    pub fn remove_at(&mut self, i: usize) -> (row: R)
        requires
            old(self).wf(),
            i < old(self).rows().len(),
        ensures
            final(self).wf(),
            row@ == old(self).rows()[i as int],
            final(self).rows() == old(self).rows().remove(i as int),
            final(self)@ == old(self)@.remove(R::key_of(row@)),
    {
        proof {
            lemma_keyed_remove::<R>(self.rows(), i as int);
        }
        let row = self.rows.remove(i);
        assert(self.rows() =~= old(self).rows().remove(i as int));
        row
    }

    /// Takes out the row stored under `key`, if there is one.
    pub fn remove(&mut self, key: &R::Key) -> (taken: Option<R>)
        requires
            old(self).wf(),
        ensures
            final(self).wf(),
            final(self)@ == old(self)@.remove(*key),
            match taken {
                Some(row) => old(self)@.contains_key(*key) && old(self)@[*key] == row@,
                None => !old(self)@.contains_key(*key) && final(self).rows() == old(self).rows(),
            },
    {
        match self.position(key) {
            Some(i) => Some(self.remove_at(i)),
            None => {
                assert(self@.remove(*key) =~= self@);
                None
            },
        }
    }

    /// Puts `row` in the place of the row at position `i`, which has the
    /// same key.
    pub fn replace_at(&mut self, i: usize, row: R)
        requires
            old(self).wf(),
            i < old(self).rows().len(),
            R::key_of(row@) == R::key_of(old(self).rows()[i as int]),
        ensures
            final(self).wf(),
            final(self).rows() == old(self).rows().update(i as int, row@),
            final(self)@ == old(self)@.insert(R::key_of(row@), row@),
    {
        proof {
            lemma_keyed_update::<R>(self.rows(), i as int, row@);
        }
        self.rows[i] = row;
        assert(self.rows() =~= old(self).rows().update(i as int, row@));
    }

    /// Every row of a scan is in the view under its own key, and every key of
    /// the view belongs to a row of the scan.
    pub proof fn lemma_scan_covers_view(&self)
        requires
            self.wf(),
        ensures
            forall|i: int|
                0 <= i < self.rows().len() ==> self@.contains_key(
                    R::key_of(#[trigger] self.rows()[i]),
                ) && self@[R::key_of(self.rows()[i])] == self.rows()[i],
            forall|k: R::Key| #[trigger]
                self@.contains_key(k) ==> R::key_of(self@[k]) == k && exists|i: int|
                    0 <= i < self.rows().len() && #[trigger] self.rows()[i] == self@[k],
    {
        assert forall|i: int| 0 <= i < self.rows().len() implies self@.contains_key(
            R::key_of(#[trigger] self.rows()[i]),
        ) && self@[R::key_of(self.rows()[i])] == self.rows()[i] by {
            lemma_keyed_row::<R>(self.rows(), i);
        }
        assert forall|k: R::Key| #[trigger] self@.contains_key(k) implies R::key_of(self@[k]) == k
            && exists|i: int|
            0 <= i < self.rows().len() && #[trigger] self.rows()[i] == self@[k] by {
            let i = lemma_keyed_key::<R>(self.rows(), k);
            assert(self.rows()[i] == self@[k]);
        }
    }
}

} // verus!
