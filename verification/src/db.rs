//! The metadata store: CRUD over file records keyed by a store-assigned id
//! and looked up by content hash.
//!
//! Records live in memory, in insertion order; ids are assigned from a
//! monotone counter, so they are unique. Lookups by hash find the first
//! (oldest) record with that hash, since several records may share one hash.

use vstd::prelude::*;

use crate::models::{NewStoreItem, Record, StoreItem};

verus! {

/// The error a metadata-store operation reports.
#[derive(Clone, Copy, Debug, PartialEq, Eq, Structural)]
pub enum DbError {
    /// No record matches the given hash or id.
    NotFound,
    /// No id is left to assign to a new record.
    IdsExhausted,
}

/// Whether some record in `recs` carries the hash `h`.
pub open spec fn has_hash(recs: Seq<Record>, h: Seq<char>) -> bool {
    exists|i: int| 0 <= i < recs.len() && recs[i].file_hash == h
}

/// The index of the first record in `recs` carrying the hash `h`
/// (meaningful only when `has_hash(recs, h)`).
pub open spec fn first_with_hash(recs: Seq<Record>, h: Seq<char>) -> int
    decreases recs.len(),
{
    if recs.len() == 0 {
        0
    } else if recs[0].file_hash == h {
        0
    } else {
        1 + first_with_hash(recs.skip(1), h)
    }
}

/// Whether some record in `recs` carries the id `rec_id`.
pub open spec fn has_id(recs: Seq<Record>, rec_id: int) -> bool {
    exists|i: int| 0 <= i < recs.len() && recs[i].id == rec_id
}

/// The index of the first record in `recs` carrying the id `rec_id`
/// (meaningful only when `has_id(recs, rec_id)`).
pub open spec fn first_with_id(recs: Seq<Record>, rec_id: int) -> int
    decreases recs.len(),
{
    if recs.len() == 0 {
        0
    } else if recs[0].id == rec_id {
        0
    } else {
        1 + first_with_id(recs.skip(1), rec_id)
    }
}

/// The records after the health flag of the record with id `rec_id` is set to
/// `state`; the records unchanged when no record has that id.
pub open spec fn set_error_flag(recs: Seq<Record>, rec_id: int, state: bool) -> Seq<Record> {
    if has_id(recs, rec_id) {
        let k = first_with_id(recs, rec_id);
        recs.update(k, Record { file_is_error: state, ..recs[k] })
    } else {
        recs
    }
}

/// If `recs[k]` carries `h` and no earlier record does, then `k` is the first
/// index with `h`.
pub proof fn lemma_first_with_hash_at(recs: Seq<Record>, h: Seq<char>, k: int)
    requires
        0 <= k < recs.len(),
        recs[k].file_hash == h,
        forall|j: int| 0 <= j < k ==> recs[j].file_hash != h,
    ensures
        has_hash(recs, h),
        first_with_hash(recs, h) == k,
    decreases k,
{
    if k > 0 {
        assert(forall|j: int| 0 <= j < k - 1 ==> recs.skip(1)[j] == recs[j + 1]);
        lemma_first_with_hash_at(recs.skip(1), h, k - 1);
    }
}

/// When some record carries `h`, the first index with `h` is in range, points
/// at a record with `h`, and no earlier record carries `h`.
pub proof fn lemma_first_with_hash_props(recs: Seq<Record>, h: Seq<char>)
    requires
        has_hash(recs, h),
    ensures
        0 <= first_with_hash(recs, h) < recs.len(),
        recs[first_with_hash(recs, h)].file_hash == h,
        forall|j: int| 0 <= j < first_with_hash(recs, h) ==> recs[j].file_hash != h,
    decreases recs.len(),
{
    if recs[0].file_hash != h {
        let i = choose|i: int| 0 <= i < recs.len() && recs[i].file_hash == h;
        assert(recs.skip(1)[i - 1] == recs[i]);
        assert(has_hash(recs.skip(1), h));
        lemma_first_with_hash_props(recs.skip(1), h);
        let f = first_with_hash(recs.skip(1), h);
        assert(recs[1 + f] == recs.skip(1)[f]);
        assert forall|j: int| 0 <= j < 1 + f implies recs[j].file_hash != h by {
            if j > 0 {
                assert(recs.skip(1)[j - 1] == recs[j]);
            }
        }
    }
}

/// When some record carries `rec_id`, the first index with `rec_id` is in
/// range, points at a record with `rec_id`, and no earlier record carries it.
pub proof fn lemma_first_with_id_props(recs: Seq<Record>, rec_id: int)
    requires
        has_id(recs, rec_id),
    ensures
        0 <= first_with_id(recs, rec_id) < recs.len(),
        recs[first_with_id(recs, rec_id)].id == rec_id,
        forall|j: int| 0 <= j < first_with_id(recs, rec_id) ==> recs[j].id != rec_id,
    decreases recs.len(),
{
    if recs[0].id != rec_id {
        let i = choose|i: int| 0 <= i < recs.len() && recs[i].id == rec_id;
        assert(recs.skip(1)[i - 1] == recs[i]);
        assert(has_id(recs.skip(1), rec_id));
        lemma_first_with_id_props(recs.skip(1), rec_id);
        let f = first_with_id(recs.skip(1), rec_id);
        assert(recs[1 + f] == recs.skip(1)[f]);
        assert forall|j: int| 0 <= j < 1 + f implies recs[j].id != rec_id by {
            if j > 0 {
                assert(recs.skip(1)[j - 1] == recs[j]);
            }
        }
    }
}

/// The first index with an id depends on the ids alone: two record sequences
/// with the same ids, position by position, agree on it.
pub proof fn lemma_first_with_id_same_ids(a: Seq<Record>, b: Seq<Record>, rec_id: int)
    requires
        a.len() == b.len(),
        forall|i: int| 0 <= i < a.len() ==> a[i].id == b[i].id,
    ensures
        has_id(a, rec_id) == has_id(b, rec_id),
        first_with_id(a, rec_id) == first_with_id(b, rec_id),
    decreases a.len(),
{
    if has_id(a, rec_id) {
        let i = choose|i: int| 0 <= i < a.len() && a[i].id == rec_id;
        assert(b[i].id == rec_id);
        assert(has_id(b, rec_id));
    }
    if has_id(b, rec_id) {
        let i = choose|i: int| 0 <= i < b.len() && b[i].id == rec_id;
        assert(a[i].id == rec_id);
        assert(has_id(a, rec_id));
    }
    if a.len() > 0 && a[0].id != rec_id {
        assert(forall|i: int| 0 <= i < a.len() - 1 ==> a.skip(1)[i] == a[i + 1]);
        assert(forall|i: int| 0 <= i < b.len() - 1 ==> b.skip(1)[i] == b[i + 1]);
        lemma_first_with_id_same_ids(a.skip(1), b.skip(1), rec_id);
    }
}

/// If `recs[k]` carries `rec_id` and no earlier record does, then `k` is the
/// first index with `rec_id`.
pub proof fn lemma_first_with_id_at(recs: Seq<Record>, rec_id: int, k: int)
    requires
        0 <= k < recs.len(),
        recs[k].id == rec_id,
        forall|j: int| 0 <= j < k ==> recs[j].id != rec_id,
    ensures
        has_id(recs, rec_id),
        first_with_id(recs, rec_id) == k,
    decreases k,
{
    if k > 0 {
        assert(forall|j: int| 0 <= j < k - 1 ==> recs.skip(1)[j] == recs[j + 1]);
        lemma_first_with_id_at(recs.skip(1), rec_id, k - 1);
    }
}

/// The metadata store.
pub struct DbState {
    items: Vec<StoreItem>,
    next_id: i32,
}

impl View for DbState {
    type V = Seq<Record>;

    closed spec fn view(&self) -> Seq<Record> {
        self.items@.map_values(|it: StoreItem| it@)
    }
}

impl DbState {
    /// The id the next inserted record will receive.
    pub closed spec fn spec_next_id(&self) -> int {
        self.next_id as int
    }

    /// Whether an id is left to assign.
    pub open spec fn can_assign_id(&self) -> bool {
        self.spec_next_id() < i32::MAX as int
    }

    /// Well-formed: ids are unique and below the id counter.
    pub closed spec fn wf(&self) -> bool {
        &&& forall|i: int, j: int|
            0 <= i < j < self@.len() ==> self@[i].id != self@[j].id
        &&& forall|i: int| 0 <= i < self@.len() ==> self@[i].id < self.next_id
        &&& self.next_id >= 1
    }

    /// An empty store.
    pub fn new() -> (r: DbState)
        ensures
            r@ == Seq::<Record>::empty(),
            r.wf(),
            r.spec_next_id() == 1,
    {
        let r = DbState { items: Vec::new(), next_id: 1 };
        proof {
            assert(r@ =~= Seq::<Record>::empty());
        }
        r
    }

    /// Look up a record by content hash: the first (oldest) record carrying
    /// the hash, or `None` when no record does.
    #[verifier::loop_isolation(false)]
    pub fn get_file_by_hash(&self, hash: String) -> (r: Option<StoreItem>)
        ensures
            match r {
                Some(item) => has_hash(self@, hash@) && item@ == self@[first_with_hash(
                    self@,
                    hash@,
                )],
                None => !has_hash(self@, hash@),
            },
    {
        let mut k: usize = 0;
        while k < self.items.len()
            invariant
                k <= self.items.len(),
                forall|j: int| 0 <= j < k ==> self@[j].file_hash != hash@,
            decreases self.items.len() - k,
        {
            if self.items[k].file_hash == hash {
                proof {
                    lemma_first_with_hash_at(self@, hash@, k as int);
                }
                return Some(self.items[k].clone());
            }
            k += 1;
        }
        None
    }

    /// Insert a new record: the store assigns the next id and clears the
    /// health flag. Fails only when the id space is exhausted; the inserted
    /// record is returned.
    pub fn add_new_item(&mut self, item: &NewStoreItem) -> (r: Result<StoreItem, DbError>)
        requires
            old(self).wf(),
        ensures
            final(self).wf(),
            match r {
                Ok(rec) => {
                    &&& old(self).can_assign_id()
                    &&& rec@ == (Record {
                        id: old(self).spec_next_id(),
                        file_name: item.file_name@,
                        file_path: item.file_path@,
                        file_hash: item.file_hash@,
                        file_is_error: false,
                    })
                    &&& final(self)@ == old(self)@.push(rec@)
                    &&& final(self).spec_next_id() == old(self).spec_next_id() + 1
                },
                Err(e) => {
                    &&& e == DbError::IdsExhausted
                    &&& !old(self).can_assign_id()
                    &&& final(self)@ == old(self)@
                    &&& final(self).spec_next_id() == old(self).spec_next_id()
                },
            },
    {
        if self.next_id == i32::MAX {
            return Err(DbError::IdsExhausted);
        }
        let rec = StoreItem {
            id: self.next_id,
            file_name: item.file_name.clone(),
            file_path: item.file_path.clone(),
            file_hash: item.file_hash.clone(),
            file_is_error: false,
        };
        self.items.push(rec.clone());
        self.next_id = self.next_id + 1;
        proof {
            assert(self@ =~= old(self)@.push(rec@));
        }
        Ok(rec)
    }

    /// Set the health flag of the record with id `rec_id` to `state` and
    /// return the updated record; fail with `NotFound` when no record has
    /// that id.
    #[verifier::loop_isolation(false)]
    pub fn update_last_read_state(&mut self, rec_id: i32, state: bool) -> (r: Result<
        StoreItem,
        DbError,
    >)
        requires
            old(self).wf(),
        ensures
            final(self).wf(),
            final(self)@ == set_error_flag(old(self)@, rec_id as int, state),
            final(self).spec_next_id() == old(self).spec_next_id(),
            match r {
                Ok(item) => has_id(old(self)@, rec_id as int) && item@ == final(self)@[
                    first_with_id(old(self)@, rec_id as int)
                ],
                Err(e) => e == DbError::NotFound && !has_id(old(self)@, rec_id as int),
            },
    {
        let mut k: usize = 0;
        while k < self.items.len()
            invariant
                self == old(self),
                k <= self.items.len(),
                forall|j: int| 0 <= j < k ==> self@[j].id != rec_id as int,
            decreases self.items.len() - k,
        {
            if self.items[k].id == rec_id {
                proof {
                    lemma_first_with_id_at(self@, rec_id as int, k as int);
                }
                let prev = self.items[k].clone();
                let updated = StoreItem {
                    id: prev.id,
                    file_name: prev.file_name,
                    file_path: prev.file_path,
                    file_hash: prev.file_hash,
                    file_is_error: state,
                };
                self.items[k] = updated;
                proof {
                    assert(self@ =~= set_error_flag(old(self)@, rec_id as int, state));
                }
                return Ok(self.items[k].clone());
            }
            k += 1;
        }
        Err(DbError::NotFound)
    }

    /// Remove the first (oldest) record carrying the hash and return it; fail
    /// with `NotFound` when no record does. The blob itself is not touched:
    /// the delete handler removes the record only after the blob is gone.
    #[verifier::loop_isolation(false)]
    pub fn remove_item_by_hash(&mut self, hash: String) -> (r: Result<StoreItem, DbError>)
        requires
            old(self).wf(),
        ensures
            final(self).wf(),
            final(self).spec_next_id() == old(self).spec_next_id(),
            match r {
                Ok(item) => {
                    &&& has_hash(old(self)@, hash@)
                    &&& item@ == old(self)@[first_with_hash(old(self)@, hash@)]
                    &&& final(self)@ == old(self)@.remove(first_with_hash(old(self)@, hash@))
                },
                Err(e) => {
                    &&& e == DbError::NotFound
                    &&& !has_hash(old(self)@, hash@)
                    &&& final(self)@ == old(self)@
                },
            },
    {
        let mut k: usize = 0;
        while k < self.items.len()
            invariant
                self == old(self),
                k <= self.items.len(),
                forall|j: int| 0 <= j < k ==> self@[j].file_hash != hash@,
            decreases self.items.len() - k,
        {
            if self.items[k].file_hash == hash {
                proof {
                    lemma_first_with_hash_at(self@, hash@, k as int);
                }
                let item = self.items.remove(k);
                proof {
                    assert(self@ =~= old(self)@.remove(k as int));
                }
                return Ok(item);
            }
            k += 1;
        }
        Err(DbError::NotFound)
    }
}

} // verus!
