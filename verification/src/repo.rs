//! Generic repository over one integer-keyed entity table.
//!
//! A [`Table`] holds the rows of a single table in ascending key order
//! together with the key that storage will assign next, the way a serial
//! column does. The four operations — list, create, update by key,
//! delete by key — carry the full repository contract: create appends
//! under a fresh key, update and delete fail with
//! [`RepoError::NotFound`] exactly when no row carries the key, and the
//! listing stays ascending and free of duplicate keys throughout.

use vstd::prelude::*;

use crate::entity::Entity;
use crate::error::RepoError;

verus! {

/// Whether some row of `rows` carries key `k`.
pub open spec fn contains_key<E: Entity>(rows: Seq<E>, k: int) -> bool {
    exists|i: int| 0 <= i < rows.len() && (#[trigger] rows[i].key()) == k
}

/// Index of the first row of `rows` carrying key `k`.
pub open spec fn key_index<E: Entity>(rows: Seq<E>, k: int) -> int
    decreases rows.len(),
{
    if rows.len() == 0 {
        0
    } else if rows[0].key() == k {
        0
    } else {
        1 + key_index(rows.drop_first(), k)
    }
}

/// The first row of `rows` carrying key `k`.
pub open spec fn row_at_key<E: Entity>(rows: Seq<E>, k: int) -> E {
    rows[key_index(rows, k)]
}

/// Keys grow strictly with row position, so no two rows share a key.
pub open spec fn keys_ascending<E: Entity>(rows: Seq<E>) -> bool {
    forall|i: int, j: int|
        0 <= i < j < rows.len() ==> (#[trigger] rows[i].key()) < (#[trigger] rows[j].key())
}

/// Where a key is contained, `key_index` points at its first occurrence.
pub proof fn lemma_key_index<E: Entity>(rows: Seq<E>, k: int)
    requires
        contains_key(rows, k),
    ensures
        0 <= key_index(rows, k) < rows.len(),
        rows[key_index(rows, k)].key() == k,
        forall|j: int| 0 <= j < key_index(rows, k) ==> (#[trigger] rows[j].key()) != k,
    decreases rows.len(),
{
    if rows.len() == 0 {
    } else if rows[0].key() == k {
    } else {
        let i = choose|i: int| 0 <= i < rows.len() && (#[trigger] rows[i].key()) == k;
        assert(rows.drop_first()[i - 1].key() == k);
        lemma_key_index(rows.drop_first(), k);
        assert forall|j: int| 0 <= j < key_index(rows, k) implies (#[trigger] rows[j].key()) != k by {
            if j > 0 {
                assert(rows.drop_first()[j - 1].key() != k);
            }
        }
    }
}

/// A position whose predecessors all miss `k` and which carries `k` is
/// exactly where `key_index` points.
pub proof fn lemma_key_index_at<E: Entity>(rows: Seq<E>, k: int, i: int)
    requires
        0 <= i < rows.len(),
        rows[i].key() == k,
        forall|j: int| 0 <= j < i ==> (#[trigger] rows[j].key()) != k,
    ensures
        contains_key(rows, k),
        key_index(rows, k) == i,
        row_at_key(rows, k) == rows[i],
    decreases i,
{
    assert(contains_key(rows, k));
    if i > 0 {
        assert forall|j: int| 0 <= j < i - 1 implies (#[trigger] rows.drop_first()[j].key()) != k by {
            assert(rows[j + 1].key() != k);
        }
        assert(rows.drop_first()[i - 1].key() == k);
        lemma_key_index_at(rows.drop_first(), k, i - 1);
    }
}

/// The first row of `rows` carrying key `k`, if any. The read views
/// resolve their joins with this scan over a listed table.
#[verifier::loop_isolation(false)]
pub fn find_row<E: Entity>(rows: &Vec<E>, k: i32) -> (r: Option<&E>)
    ensures
        match r {
            Some(e) => contains_key(rows@, k as int) && *e == row_at_key(rows@, k as int),
            None => !contains_key(rows@, k as int),
        },
{
    let n = rows.len();
    let mut i: usize = 0;
    while i < n
        invariant
            n == rows@.len(),
            forall|j: int| 0 <= j < i as int ==> (#[trigger] rows@[j].key()) != k as int,
        decreases n - i,
    {
        if rows[i].key_exec() == k {
            proof {
                lemma_key_index_at(rows@, k as int, i as int);
            }
            return Some(&rows[i]);
        }
        i = i + 1;
    }
    None
}

/// One table of rows of entity type `E`, keyed by a serial integer.
pub struct Table<E> {
    rows: Vec<E>,
    next: i32,
}

impl<E: Entity> View for Table<E> {
    type V = Seq<E>;

    closed spec fn view(&self) -> Seq<E> {
        self.rows@
    }
}

impl<E: Entity> Table<E> {
    /// The key that storage will assign to the next created row.
    pub closed spec fn next_key(self) -> i32 {
        self.next
    }

    /// Rows ascend by key, every key is positive, and every key is below
    /// the next fresh key.
    pub open spec fn wf(self) -> bool {
        &&& 1 <= self.next_key()
        &&& keys_ascending(self@)
        &&& forall|i: int|
            0 <= i < self@.len() ==> 1 <= (#[trigger] self@[i].key()) < self.next_key() as int
    }

    /// An empty table, about to assign key 1.
    pub fn new() -> (t: Self)
        ensures
            t.wf(),
            t@ =~= Seq::<E>::empty(),
            t.next_key() == 1,
    {
        Table { rows: Vec::new(), next: 1 }
    }

    /// All rows, ascending by key.
    pub fn list(&self) -> (r: &Vec<E>)
        ensures
            r@ == self@,
    {
        &self.rows
    }

    /// The row carrying key `k`, if any.
    #[verifier::loop_isolation(false)]
    pub fn fetch(&self, k: i32) -> (r: Option<&E>)
        requires
            self.wf(),
        ensures
            match r {
                Some(e) => contains_key(self@, k as int) && *e == row_at_key(self@, k as int),
                None => !contains_key(self@, k as int),
            },
    {
        let n = self.rows.len();
        let mut i: usize = 0;
        while i < n
            invariant
                n == self.rows.len(),
                forall|j: int| 0 <= j < i as int ==> (#[trigger] self@[j].key()) != k as int,
            decreases n - i,
        {
            if self.rows[i].key_exec() == k {
                proof {
                    lemma_key_index_at(self@, k as int, i as int);
                }
                return Some(&self.rows[i]);
            }
            i = i + 1;
        }
        None
    }

    /// Inserts `input` under the next fresh key and returns the stored
    /// row; fails only when the key space is exhausted.
    pub fn create(&mut self, input: E) -> (r: Result<E, RepoError>)
        requires
            old(self).wf(),
        ensures
            final(self).wf(),
            r is Ok <==> old(self).next_key() < i32::MAX,
            match r {
                Ok(e) => {
                    &&& e == input.set_key(old(self).next_key())
                    &&& e.key() == old(self).next_key() as int
                    &&& !contains_key(old(self)@, e.key())
                    &&& final(self)@ =~= old(self)@.push(e)
                    &&& final(self).next_key() == old(self).next_key() + 1
                },
                Err(er) => er is Storage && *final(self) == *old(self),
            },
    {
        if self.next == i32::MAX {
            return Err(
                RepoError::Storage("the key space of the table is exhausted".to_owned()),
            );
        }
        let k = self.next;
        let e = input.with_key(k);
        let stored = e.dup();
        let ghost prev = self@;
        proof {
            input.lemma_set_key(k);
        }
        self.rows.push(stored);
        self.next = k + 1;
        proof {
            assert forall|i: int, j: int| 0 <= i < j < self@.len() implies (
            #[trigger] self@[i].key()) < (#[trigger] self@[j].key()) by {
                if j < self@.len() - 1 {
                    assert(prev[i].key() < prev[j].key());
                } else {
                    assert(prev[i].key() < k as int);
                }
            }
        }
        Ok(e)
    }

    /// Overwrites every non-key field of the row carrying key `k` with
    /// the fields of `input` and echoes the stored row; fails with
    /// `NotFound` exactly when no row carries `k`.
    #[verifier::loop_isolation(false)]
    pub fn update(&mut self, k: i32, input: E) -> (r: Result<E, RepoError>)
        requires
            old(self).wf(),
        ensures
            final(self).wf(),
            final(self).next_key() == old(self).next_key(),
            r is Ok <==> contains_key(old(self)@, k as int),
            match r {
                Ok(e) => {
                    &&& e == input.set_key(k)
                    &&& final(self)@ =~= old(self)@.update(
                        key_index(old(self)@, k as int),
                        input.set_key(k),
                    )
                    &&& contains_key(final(self)@, k as int)
                    &&& row_at_key(final(self)@, k as int) == input.set_key(k)
                },
                Err(er) => er is NotFound && *final(self) == *old(self),
            },
    {
        let n = self.rows.len();
        let mut i: usize = 0;
        while i < n
            invariant
                *self == *old(self),
                n == self.rows.len(),
                forall|j: int| 0 <= j < i as int ==> (#[trigger] self@[j].key()) != k as int,
            decreases n - i,
        {
            if self.rows[i].key_exec() == k {
                proof {
                    lemma_key_index_at(self@, k as int, i as int);
                    input.lemma_set_key(k);
                }
                let e = input.with_key(k);
                let stored = e.dup();
                let ghost prev = self@;
                self.rows[i] = stored;
                proof {
                    let cur = self@;
                    assert(cur =~= prev.update(i as int, e));
                    assert forall|p: int, q: int| 0 <= p < q < cur.len() implies (
                    #[trigger] cur[p].key()) < (#[trigger] cur[q].key()) by {
                        assert(prev[p].key() < prev[q].key());
                    }
                    assert forall|j: int| 0 <= j < i as int implies (
                    #[trigger] cur[j].key()) != k as int by {
                        assert(prev[j].key() != k as int);
                    }
                    lemma_key_index_at(cur, k as int, i as int);
                }
                return Ok(e);
            }
            i = i + 1;
        }
        Err(RepoError::NotFound)
    }

    /// Removes the row carrying key `k` and returns its previous values;
    /// fails with `NotFound` exactly when no row carries `k`. The key is
    /// gone from the listing afterwards, so deleting it again fails.
    #[verifier::loop_isolation(false)]
    pub fn delete(&mut self, k: i32) -> (r: Result<E, RepoError>)
        requires
            old(self).wf(),
        ensures
            final(self).wf(),
            final(self).next_key() == old(self).next_key(),
            r is Ok <==> contains_key(old(self)@, k as int),
            match r {
                Ok(e) => {
                    &&& e == row_at_key(old(self)@, k as int)
                    &&& final(self)@ =~= old(self)@.remove(key_index(old(self)@, k as int))
                    &&& !contains_key(final(self)@, k as int)
                },
                Err(er) => er is NotFound && *final(self) == *old(self),
            },
    {
        let n = self.rows.len();
        let mut i: usize = 0;
        while i < n
            invariant
                *self == *old(self),
                n == self.rows.len(),
                forall|j: int| 0 <= j < i as int ==> (#[trigger] self@[j].key()) != k as int,
            decreases n - i,
        {
            if self.rows[i].key_exec() == k {
                proof {
                    lemma_key_index_at(self@, k as int, i as int);
                }
                let ghost prev = self@;
                let e = self.rows.remove(i);
                proof {
                    let cur = self@;
                    assert forall|p: int, q: int| 0 <= p < q < cur.len() implies (
                    #[trigger] cur[p].key()) < (#[trigger] cur[q].key()) by {
                        if q < i as int {
                            assert(prev[p].key() < prev[q].key());
                        } else if p < i as int {
                            assert(prev[p].key() < prev[q + 1].key());
                        } else {
                            assert(prev[p + 1].key() < prev[q + 1].key());
                        }
                    }
                    assert forall|j: int| 0 <= j < cur.len() implies (
                    #[trigger] cur[j].key()) != k as int by {
                        if j < i as int {
                            assert(prev[j].key() != k as int);
                        } else {
                            assert(prev[j + 1].key() > prev[i as int].key());
                        }
                    }
                }
                return Ok(e);
            }
            i = i + 1;
        }
        Err(RepoError::NotFound)
    }
}

/// A listing with ascending keys never holds two rows that share a key.
pub proof fn lemma_ascending_keys_distinct<E: Entity>(rows: Seq<E>)
    requires
        keys_ascending(rows),
    ensures
        forall|i: int, j: int|
            0 <= i < j < rows.len() ==> (#[trigger] rows[i].key()) != (#[trigger] rows[j].key()),
{
}

/// Creation appends the row under a fresh key: afterwards the listing
/// contains the created row, any row carrying the assigned key is that
/// row at the end of the listing, and keys stay free of duplicates.
pub proof fn lemma_create_then_list<E: Entity>(rows: Seq<E>, r: E)
    requires
        keys_ascending(rows),
        forall|i: int| 0 <= i < rows.len() ==> (#[trigger] rows[i].key()) < r.key(),
    ensures
        rows.push(r).contains(r),
        keys_ascending(rows.push(r)),
        forall|i: int|
            0 <= i < rows.push(r).len() && (#[trigger] rows.push(r)[i].key()) == r.key() ==> i
                == rows.len() && rows.push(r)[i] == r,
{
    let rows1 = rows.push(r);
    assert(rows1[rows.len() as int] == r);
    assert forall|i: int, j: int| 0 <= i < j < rows1.len() implies (#[trigger] rows1[i].key()) < (
    #[trigger] rows1[j].key()) by {
        if j < rows.len() {
            assert(rows[i].key() < rows[j].key());
        } else {
            assert(rows[i].key() < r.key());
        }
    }
}

/// After a deletion the listing no longer carries the key, so a second
/// deletion of the same key reports that no row matches.
pub proof fn lemma_delete_then_delete<E: Entity>(rows: Seq<E>, k: int)
    requires
        keys_ascending(rows),
        contains_key(rows, k),
    ensures
        !contains_key(rows.remove(key_index(rows, k)), k),
{
    lemma_key_index(rows, k);
    let i = key_index(rows, k);
    let rows1 = rows.remove(i);
    assert forall|j: int| 0 <= j < rows1.len() implies (#[trigger] rows1[j].key()) != k by {
        if j < i {
            assert(rows[j].key() != k);
        } else {
            assert(rows[i].key() < rows[j + 1].key());
        }
    }
}

/// An update stores the payload under the targeted key: fetching that
/// key afterwards yields a row equal to the payload in every field
/// except the key.
pub proof fn lemma_update_then_fetch<E: Entity>(rows: Seq<E>, k: i32, x: E)
    requires
        keys_ascending(rows),
        contains_key(rows, k as int),
    ensures
        contains_key(rows.update(key_index(rows, k as int), x.set_key(k)), k as int),
        row_at_key(rows.update(key_index(rows, k as int), x.set_key(k)), k as int) == x.set_key(k),
{
    lemma_key_index(rows, k as int);
    x.lemma_set_key(k);
    let i = key_index(rows, k as int);
    let rows1 = rows.update(i, x.set_key(k));
    assert forall|j: int| 0 <= j < i implies (#[trigger] rows1[j].key()) != k as int by {
        assert(rows[j].key() != k as int);
    }
    lemma_key_index_at(rows1, k as int, i);
}

} // verus!
