//! The consistency reconciler: the one policy that mutates a record after its
//! creation.
//!
//! When a fetch or delete discovers that a record's blob is missing or
//! unreadable, the record is not removed — that would destroy the evidence —
//! but its health flag is set, keeping the divergence visible to operators.
//! The policy is idempotent: re-flagging a flagged record changes nothing.

use vstd::prelude::*;

use crate::db::{first_with_id, has_id, set_error_flag, DbError, DbState};
use crate::models::StoreItem;

verus! {

/// Flag the record with id `rec_id` as errored and return it; fail with
/// `NotFound` when no record has that id. The record itself survives: only
/// its health flag changes.
pub fn reconcile_missing_blob(db: &mut DbState, rec_id: i32) -> (r: Result<StoreItem, DbError>)
    requires
        old(db).wf(),
    ensures
        final(db).wf(),
        final(db)@ == set_error_flag(old(db)@, rec_id as int, true),
        final(db).spec_next_id() == old(db).spec_next_id(),
        match r {
            Ok(item) => has_id(old(db)@, rec_id as int) && item@ == final(db)@[first_with_id(
                old(db)@,
                rec_id as int,
            )],
            Err(e) => e == DbError::NotFound && !has_id(old(db)@, rec_id as int),
        },
{
    db.update_last_read_state(rec_id, true)
}

} // verus!
