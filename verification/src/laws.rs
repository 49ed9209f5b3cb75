//! The store's laws: what holds of the handler transitions in every state.
//!
//! Each law is proved over the spec functions that the handlers' own
//! contracts are stated with, so it holds of every execution of the verified
//! handlers.

use vstd::prelude::*;

use crate::chunks::{chunk_seq, concat_chunks, lemma_chunk_seq_concat};
use crate::db::{
    first_with_hash, first_with_id, has_hash, has_id, lemma_first_with_hash_at,
    lemma_first_with_hash_props, lemma_first_with_id_props, lemma_first_with_id_same_ids,
    set_error_flag,
};
use crate::grpc::{
    blob_path_spec, delete_blobs_after, delete_outcome, delete_records_after, fetch_outcome,
    fetch_records_after, upload_committed, DeleteModel, FetchModel,
};
use crate::hashing::sha256_hex_of;
use crate::models::Record;

verus! {

/// Consistency between the two stores: every healthy record's blob is present
/// and the recorded hash is the digest of exactly that blob's bytes — no
/// drift between disk content and metadata.
pub open spec fn consistent(recs: Seq<Record>, blobs: Map<Seq<char>, Seq<u8>>) -> bool {
    forall|i: int|
        #![trigger recs[i]]
        0 <= i < recs.len() && !recs[i].file_is_error ==> blobs.contains_key(recs[i].file_path)
            && recs[i].file_hash == sha256_hex_of(blobs[recs[i].file_path])
}

/// Law: the upload/fetch round trip. After an upload of `content` commits —
/// provided no earlier record already carried the same hash, as with a
/// duplicate upload of the same bytes — fetching the resulting hash yields
/// the chunks of exactly `content`, their concatenation is `content`, and the
/// fetch leaves the records untouched.
pub proof fn lemma_upload_fetch_round_trip(
    pre_db: Seq<Record>,
    pre_disk: Map<Seq<char>, Seq<u8>>,
    folder: Seq<char>,
    stamp: Seq<char>,
    fresh_id: int,
    name: Seq<char>,
    content: Seq<u8>,
    post_db: Seq<Record>,
    post_disk: Map<Seq<char>, Seq<u8>>,
    cs: int,
)
    requires
        upload_committed(
            pre_db,
            pre_disk,
            folder,
            stamp,
            fresh_id,
            name,
            content,
            post_db,
            post_disk,
        ),
        !has_hash(pre_db, sha256_hex_of(content)),
        cs >= 1,
    ensures
        fetch_outcome(post_db, post_disk, sha256_hex_of(content), cs) == FetchModel::Chunks(
            chunk_seq(content, cs),
        ),
        concat_chunks(chunk_seq(content, cs)) == content,
        fetch_records_after(post_db, post_disk, sha256_hex_of(content)) == post_db,
{
    let h = sha256_hex_of(content);
    let k = pre_db.len() as int;
    let path = blob_path_spec(folder, stamp, name);
    assert(post_db[k].file_hash == h);
    assert forall|j: int| 0 <= j < k implies post_db[j].file_hash != h by {
        assert(post_db[j] == pre_db[j]);
        if pre_db[j].file_hash == h {
            assert(has_hash(pre_db, h));
        }
    }
    lemma_first_with_hash_at(post_db, h, k);
    assert(post_disk.contains_key(path));
    assert(post_disk[path] == content);
    lemma_chunk_seq_concat(content, cs);
}

/// Law: upload preserves consistency — the committed hash is the digest of
/// exactly the bytes written. The destination path must be fresh: an upload
/// landing on a live record's path overwrites that record's blob.
pub proof fn lemma_upload_preserves_consistency(
    pre_db: Seq<Record>,
    pre_disk: Map<Seq<char>, Seq<u8>>,
    folder: Seq<char>,
    stamp: Seq<char>,
    fresh_id: int,
    name: Seq<char>,
    content: Seq<u8>,
    post_db: Seq<Record>,
    post_disk: Map<Seq<char>, Seq<u8>>,
)
    requires
        consistent(pre_db, pre_disk),
        upload_committed(
            pre_db,
            pre_disk,
            folder,
            stamp,
            fresh_id,
            name,
            content,
            post_db,
            post_disk,
        ),
        forall|i: int|
            0 <= i < pre_db.len() ==> (#[trigger] pre_db[i].file_path) != blob_path_spec(
                folder,
                stamp,
                name,
            ),
    ensures
        consistent(post_db, post_disk),
{
    let path = blob_path_spec(folder, stamp, name);
    assert forall|i: int|
        0 <= i < post_db.len() && !(#[trigger] post_db[i]).file_is_error implies post_disk.contains_key(
        post_db[i].file_path,
    ) && post_db[i].file_hash == sha256_hex_of(post_disk[post_db[i].file_path]) by {
        if i < pre_db.len() {
            assert(post_db[i] == pre_db[i]);
            assert(pre_db[i].file_path != path);
        } else {
            assert(post_db[i].file_path == path);
            assert(post_disk[path] == content);
        }
    }
}

/// Law: fetch preserves consistency — flagging a record whose blob is gone
/// only weakens what consistency demands of it.
pub proof fn lemma_fetch_preserves_consistency(
    recs: Seq<Record>,
    blobs: Map<Seq<char>, Seq<u8>>,
    h: Seq<char>,
)
    requires
        consistent(recs, blobs),
    ensures
        consistent(fetch_records_after(recs, blobs, h), blobs),
{
    lemma_set_error_flag_preserves_consistency_all(recs, blobs);
}

/// Law: the reconciler preserves consistency, whatever id it is given — a
/// set health flag only exempts the record from consistency's demand.
pub proof fn lemma_reconcile_preserves_consistency(
    recs: Seq<Record>,
    blobs: Map<Seq<char>, Seq<u8>>,
    rec_id: int,
)
    requires
        consistent(recs, blobs),
    ensures
        consistent(set_error_flag(recs, rec_id, true), blobs),
{
    lemma_set_error_flag_preserves_consistency_all(recs, blobs);
}

/// Flagging any record errored preserves consistency.
proof fn lemma_set_error_flag_preserves_consistency_all(
    recs: Seq<Record>,
    blobs: Map<Seq<char>, Seq<u8>>,
)
    requires
        consistent(recs, blobs),
    ensures
        forall|rec_id: int| #![auto] consistent(set_error_flag(recs, rec_id, true), blobs),
{
    assert forall|rec_id: int| #![auto] consistent(set_error_flag(recs, rec_id, true), blobs) by {
        if has_id(recs, rec_id) {
            lemma_first_with_id_props(recs, rec_id);
            let k = first_with_id(recs, rec_id);
            let post = set_error_flag(recs, rec_id, true);
            assert forall|i: int|
                0 <= i < post.len() && !(#[trigger] post[i]).file_is_error implies blobs.contains_key(
                post[i].file_path,
            ) && post[i].file_hash == sha256_hex_of(blobs[post[i].file_path]) by {
                if i != k {
                    assert(post[i] == recs[i]);
                }
            }
        }
    }
}

/// Law: delete preserves consistency. The removed record's path must be its
/// own: were another live record pointing at the same blob, removing the blob
/// would break that record.
pub proof fn lemma_delete_preserves_consistency(
    recs: Seq<Record>,
    blobs: Map<Seq<char>, Seq<u8>>,
    h: Seq<char>,
)
    requires
        consistent(recs, blobs),
        delete_outcome(recs, blobs, h) is Deleted ==> forall|i: int|
            0 <= i < recs.len() && i != first_with_hash(recs, h) ==> (
            #[trigger] recs[i].file_path) != recs[first_with_hash(recs, h)].file_path,
    ensures
        consistent(delete_records_after(recs, blobs, h), delete_blobs_after(recs, blobs, h)),
{
    let out = delete_outcome(recs, blobs, h);
    if out is FlaggedMissing {
        lemma_set_error_flag_preserves_consistency_all(recs, blobs);
    } else if out is Deleted {
        lemma_first_with_hash_props(recs, h);
        let k = first_with_hash(recs, h);
        let post = recs.remove(k);
        let post_blobs = blobs.remove(recs[k].file_path);
        assert forall|i: int|
            0 <= i < post.len() && !(#[trigger] post[i]).file_is_error implies post_blobs.contains_key(
            post[i].file_path,
        ) && post[i].file_hash == sha256_hex_of(post_blobs[post[i].file_path]) by {
            let pi = if i < k {
                i
            } else {
                i + 1
            };
            assert(post[i] == recs[pi]);
            assert(recs[pi].file_path != recs[k].file_path);
        }
    }
}

/// Law: deleting a hash no record carries fails with record-not-found and
/// changes nothing. A failed delete leaves the state as it was, so deleting
/// the same never-uploaded hash twice in a row fails the second time too.
pub proof fn lemma_delete_unknown_hash(
    recs: Seq<Record>,
    blobs: Map<Seq<char>, Seq<u8>>,
    h: Seq<char>,
)
    requires
        !has_hash(recs, h),
    ensures
        delete_outcome(recs, blobs, h) == DeleteModel::RecordNotFound,
        delete_records_after(recs, blobs, h) == recs,
        delete_blobs_after(recs, blobs, h) == blobs,
{
}

/// Law: a delete is not repeatable. Once a delete of `h` succeeds — and `h`
/// had the one record, as when its upload was not duplicated — a second
/// delete of `h` fails with record-not-found.
pub proof fn lemma_delete_twice(recs: Seq<Record>, blobs: Map<Seq<char>, Seq<u8>>, h: Seq<char>)
    requires
        delete_outcome(recs, blobs, h) == DeleteModel::Deleted,
        forall|i: int|
            0 <= i < recs.len() && i != first_with_hash(recs, h) ==> (
            #[trigger] recs[i]).file_hash != h,
    ensures
        delete_outcome(
            delete_records_after(recs, blobs, h),
            delete_blobs_after(recs, blobs, h),
            h,
        ) == DeleteModel::RecordNotFound,
{
    lemma_first_with_hash_props(recs, h);
    let k = first_with_hash(recs, h);
    let post = delete_records_after(recs, blobs, h);
    assert(post == recs.remove(k));
    assert forall|i: int| 0 <= i < post.len() implies (#[trigger] post[i]).file_hash != h by {
        let pi = if i < k {
            i
        } else {
            i + 1
        };
        assert(post[i] == recs[pi]);
    }
    assert(!has_hash(post, h));
}

/// Law: a fetch whose record's blob was removed out of band fails and flags —
/// the record is marked errored, kept in place, and no other record changes.
pub proof fn lemma_fetch_missing_blob_flags(
    recs: Seq<Record>,
    blobs: Map<Seq<char>, Seq<u8>>,
    h: Seq<char>,
    cs: int,
)
    requires
        has_hash(recs, h),
        !blobs.contains_key(recs[first_with_hash(recs, h)].file_path),
        forall|i: int, j: int| 0 <= i < j < recs.len() ==> recs[i].id != recs[j].id,
    ensures
        fetch_outcome(recs, blobs, h, cs) == FetchModel::BlobMissing,
        fetch_records_after(recs, blobs, h).len() == recs.len(),
        fetch_records_after(recs, blobs, h)[first_with_hash(recs, h)] == (Record {
            file_is_error: true,
            ..recs[first_with_hash(recs, h)]
        }),
        forall|i: int|
            0 <= i < recs.len() && i != first_with_hash(recs, h) ==> fetch_records_after(
                recs,
                blobs,
                h,
            )[i] == recs[i],
{
    lemma_first_with_hash_props(recs, h);
    let k = first_with_hash(recs, h);
    let rec = recs[k];
    assert(has_id(recs, rec.id));
    lemma_first_with_id_props(recs, rec.id);
    let kk = first_with_id(recs, rec.id);
    if kk != k {
        assert(recs[kk].id == recs[k].id);
        assert(false);
    }
}

/// Law: independent uploads do not disturb each other. Two committed uploads
/// with distinct destination paths and distinct hashes — distinct content
/// gives distinct digests, and duplicated content is excluded here — are each
/// fetched back exactly, by their own hash.
pub proof fn lemma_independent_uploads(
    db0: Seq<Record>,
    disk0: Map<Seq<char>, Seq<u8>>,
    folder: Seq<char>,
    stamp_a: Seq<char>,
    stamp_b: Seq<char>,
    id_a: int,
    id_b: int,
    name_a: Seq<char>,
    name_b: Seq<char>,
    content_a: Seq<u8>,
    content_b: Seq<u8>,
    db1: Seq<Record>,
    disk1: Map<Seq<char>, Seq<u8>>,
    db2: Seq<Record>,
    disk2: Map<Seq<char>, Seq<u8>>,
    cs: int,
)
    requires
        upload_committed(db0, disk0, folder, stamp_a, id_a, name_a, content_a, db1, disk1),
        upload_committed(db1, disk1, folder, stamp_b, id_b, name_b, content_b, db2, disk2),
        sha256_hex_of(content_a) != sha256_hex_of(content_b),
        blob_path_spec(folder, stamp_a, name_a) != blob_path_spec(folder, stamp_b, name_b),
        !has_hash(db0, sha256_hex_of(content_a)),
        !has_hash(db0, sha256_hex_of(content_b)),
        cs >= 1,
    ensures
        fetch_outcome(db2, disk2, sha256_hex_of(content_a), cs) == FetchModel::Chunks(
            chunk_seq(content_a, cs),
        ),
        fetch_outcome(db2, disk2, sha256_hex_of(content_b), cs) == FetchModel::Chunks(
            chunk_seq(content_b, cs),
        ),
        concat_chunks(chunk_seq(content_a, cs)) == content_a,
        concat_chunks(chunk_seq(content_b, cs)) == content_b,
{
    let ha = sha256_hex_of(content_a);
    let hb = sha256_hex_of(content_b);
    let pa = blob_path_spec(folder, stamp_a, name_a);
    let pb = blob_path_spec(folder, stamp_b, name_b);
    let ka = db0.len() as int;
    let kb = db0.len() as int + 1;
    assert(db2[ka] == db1[ka]);
    assert(db2[ka].file_hash == ha);
    assert(db2[kb].file_hash == hb);
    assert forall|j: int| 0 <= j < ka implies (#[trigger] db2[j]).file_hash != ha by {
        assert(db2[j] == db0[j]);
        if db0[j].file_hash == ha {
            assert(has_hash(db0, ha));
        }
    }
    lemma_first_with_hash_at(db2, ha, ka);
    assert forall|j: int| 0 <= j < kb implies (#[trigger] db2[j]).file_hash != hb by {
        if j < ka {
            assert(db2[j] == db0[j]);
            if db0[j].file_hash == hb {
                assert(has_hash(db0, hb));
            }
        } else {
            assert(db2[j].file_hash == ha);
        }
    }
    lemma_first_with_hash_at(db2, hb, kb);
    assert(disk2.contains_key(pa));
    assert(disk2[pa] == content_a);
    assert(disk2.contains_key(pb));
    assert(disk2[pb] == content_b);
    lemma_chunk_seq_concat(content_a, cs);
    lemma_chunk_seq_concat(content_b, cs);
}

/// Law: reconciliation is idempotent. Flagging a record errored twice leaves
/// exactly the state that flagging it once leaves.
pub proof fn lemma_reconcile_idempotent(recs: Seq<Record>, rec_id: int)
    ensures
        set_error_flag(set_error_flag(recs, rec_id, true), rec_id, true) == set_error_flag(
            recs,
            rec_id,
            true,
        ),
{
    if has_id(recs, rec_id) {
        lemma_first_with_id_props(recs, rec_id);
        let k = first_with_id(recs, rec_id);
        let f1 = set_error_flag(recs, rec_id, true);
        assert(f1 == recs.update(k, Record { file_is_error: true, ..recs[k] }));
        assert(forall|i: int| 0 <= i < recs.len() ==> f1[i].id == recs[i].id);
        lemma_first_with_id_same_ids(recs, f1, rec_id);
        assert(has_id(f1, rec_id));
        assert(first_with_id(f1, rec_id) == k);
        let f2 = set_error_flag(f1, rec_id, true);
        assert(f2 == f1.update(k, Record { file_is_error: true, ..f1[k] }));
        assert((Record { file_is_error: true, ..f1[k] }) == f1[k]);
        assert(f2 =~= f1);
    }
}

} // verus!

