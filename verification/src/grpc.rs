//! The service itself: the upload, fetch and delete handlers over the two
//! stores, and the spec-level transitions each handler implements.
//!
//! Every handler's effect on the metadata records and the blobs is stated as
//! a function of the state it started from, so that the store's laws — round
//! trips, flag-and-keep on divergence, delete-exactly-once — can be proved
//! about the transitions themselves.

use vstd::prelude::*;
use vstd::string::*;

use crate::chunks::{chunk_seq, chunk_views, split_chunks};
use crate::clock::now_millis_string;
use crate::db::{first_with_hash, has_hash, set_error_flag, DbState};
use crate::disk::Disk;
use crate::hashing::{sha256_hex_of, ContentHasher};
use crate::models::{NewStoreItem, Record};
use crate::reconcile::reconcile_missing_blob;
use crate::storage::{
    DeleteFileRequest, DeleteFileResponse, FetchFileRequest, FetchFileResponse, Status, StatusCode,
    UploadData, UploadFileRequest, UploadFileResponse, OK_CODE,
};

verus! {

/// Where an upload's blob lands: the storage directory joined with
/// `{stamp}_{original name}`.
pub open spec fn blob_path_spec(folder: Seq<char>, stamp: Seq<char>, name: Seq<char>) -> Seq<char> {
    folder + "/"@ + stamp + "_"@ + name
}

/// Build the destination path of an upload.
fn blob_path(folder: &String, stamp: &String, name: &String) -> (r: String)
    ensures
        r@ == blob_path_spec(folder@, stamp@, name@),
{
    let mut p = folder.clone();
    p.append("/");
    p.append(stamp.as_str());
    p.append("_");
    p.append(name.as_str());
    p
}

/// How far an upload transfer's message prefix parses: not yet named, named
/// with the content received so far, or failed — by a chunk before any name
/// (nothing was written yet), or by a second name (a blob was already begun).
pub ghost enum UploadParse {
    Start,
    Named { name: Seq<char>, content: Seq<u8> },
    FailedEarly,
    FailedLate { name: Seq<char>, content: Seq<u8> },
}

/// One step of the upload protocol: a message with no payload is skipped, the
/// first name opens the transfer, chunks extend it, and anything out of order
/// fails it for good.
pub open spec fn upload_step(s: UploadParse, d: Option<UploadData>) -> UploadParse {
    match d {
        Option::None => s,
        Option::Some(UploadData::FileName(n)) => match s {
            UploadParse::Start => UploadParse::Named { name: n@, content: Seq::empty() },
            UploadParse::Named { name, content } => UploadParse::FailedLate { name, content },
            UploadParse::FailedEarly => UploadParse::FailedEarly,
            UploadParse::FailedLate { name, content } => UploadParse::FailedLate { name, content },
        },
        Option::Some(UploadData::Chunk(c)) => match s {
            UploadParse::Start => UploadParse::FailedEarly,
            UploadParse::Named { name, content } => UploadParse::Named {
                name,
                content: content + c@,
            },
            UploadParse::FailedEarly => UploadParse::FailedEarly,
            UploadParse::FailedLate { name, content } => UploadParse::FailedLate { name, content },
        },
    }
}

/// The parse state after the first `n` messages of the transfer.
pub open spec fn upload_parse(reqs: Seq<UploadFileRequest>, n: int) -> UploadParse
    decreases n,
{
    if n <= 0 {
        UploadParse::Start
    } else {
        upload_step(upload_parse(reqs, n - 1), reqs[n - 1].data)
    }
}

/// A failed parse stays failed, whatever else follows.
pub proof fn lemma_upload_parse_failed_stable(reqs: Seq<UploadFileRequest>, n: int, m: int)
    requires
        0 <= n <= m,
        upload_parse(reqs, n) is FailedEarly || upload_parse(reqs, n) is FailedLate,
    ensures
        upload_parse(reqs, m) == upload_parse(reqs, n),
    decreases m - n,
{
    if m > n {
        lemma_upload_parse_failed_stable(reqs, n, m - 1);
    }
}

/// What a committed upload did: one new record — the given name, the stamped
/// path, the digest of the content, health flag clear — and the content at
/// that path in the blob store.
pub open spec fn upload_committed(
    pre_db: Seq<Record>,
    pre_disk: Map<Seq<char>, Seq<u8>>,
    folder: Seq<char>,
    stamp: Seq<char>,
    fresh_id: int,
    name: Seq<char>,
    content: Seq<u8>,
    post_db: Seq<Record>,
    post_disk: Map<Seq<char>, Seq<u8>>,
) -> bool {
    let path = blob_path_spec(folder, stamp, name);
    &&& post_db == pre_db.push(
        Record {
            id: fresh_id,
            file_name: name,
            file_path: path,
            file_hash: sha256_hex_of(content),
            file_is_error: false,
        },
    )
    &&& post_disk == pre_disk.insert(path, content)
}

/// A fetch's result, at the spec level.
pub ghost enum FetchModel {
    /// No record carries the hash.
    NoRecord,
    /// The record's blob is gone from the blob store.
    BlobMissing,
    /// The record is flagged errored; a broken record is never served.
    Flagged,
    /// The blob's chunks, in file order.
    Chunks(Seq<Seq<u8>>),
}

/// What a fetch of `h` returns, given the records and the blobs.
pub open spec fn fetch_outcome(
    recs: Seq<Record>,
    blobs: Map<Seq<char>, Seq<u8>>,
    h: Seq<char>,
    cs: int,
) -> FetchModel {
    if !has_hash(recs, h) {
        FetchModel::NoRecord
    } else {
        let rec = recs[first_with_hash(recs, h)];
        if !blobs.contains_key(rec.file_path) {
            FetchModel::BlobMissing
        } else if rec.file_is_error {
            FetchModel::Flagged
        } else {
            FetchModel::Chunks(chunk_seq(blobs[rec.file_path], cs))
        }
    }
}

/// What a fetch of `h` does to the records: a record whose blob is missing is
/// flagged errored — and kept; everything else is untouched.
pub open spec fn fetch_records_after(
    recs: Seq<Record>,
    blobs: Map<Seq<char>, Seq<u8>>,
    h: Seq<char>,
) -> Seq<Record> {
    if has_hash(recs, h) && !blobs.contains_key(recs[first_with_hash(recs, h)].file_path) {
        set_error_flag(recs, recs[first_with_hash(recs, h)].id, true)
    } else {
        recs
    }
}

/// A delete's result, at the spec level.
pub ghost enum DeleteModel {
    /// No record carries the hash.
    RecordNotFound,
    /// The blob was already gone; the record was flagged now and kept.
    FlaggedMissing,
    /// The blob was already gone and the record already flagged; kept as is.
    AlreadyFlaggedMissing,
    /// Blob removed, then the record removed.
    Deleted,
}

/// What a delete of `h` reports, given the records and the blobs.
pub open spec fn delete_outcome(
    recs: Seq<Record>,
    blobs: Map<Seq<char>, Seq<u8>>,
    h: Seq<char>,
) -> DeleteModel {
    if !has_hash(recs, h) {
        DeleteModel::RecordNotFound
    } else {
        let rec = recs[first_with_hash(recs, h)];
        if !blobs.contains_key(rec.file_path) {
            if !rec.file_is_error {
                DeleteModel::FlaggedMissing
            } else {
                DeleteModel::AlreadyFlaggedMissing
            }
        } else {
            DeleteModel::Deleted
        }
    }
}

/// What a delete of `h` does to the records: removed exactly when its blob
/// was removed in the same operation; flagged and kept when the blob was
/// already gone.
pub open spec fn delete_records_after(
    recs: Seq<Record>,
    blobs: Map<Seq<char>, Seq<u8>>,
    h: Seq<char>,
) -> Seq<Record> {
    match delete_outcome(recs, blobs, h) {
        DeleteModel::RecordNotFound => recs,
        DeleteModel::FlaggedMissing => set_error_flag(
            recs,
            recs[first_with_hash(recs, h)].id,
            true,
        ),
        DeleteModel::AlreadyFlaggedMissing => recs,
        DeleteModel::Deleted => recs.remove(first_with_hash(recs, h)),
    }
}

/// What a delete of `h` does to the blobs.
pub open spec fn delete_blobs_after(
    recs: Seq<Record>,
    blobs: Map<Seq<char>, Seq<u8>>,
    h: Seq<char>,
) -> Map<Seq<char>, Seq<u8>> {
    if delete_outcome(recs, blobs, h) is Deleted {
        blobs.remove(recs[first_with_hash(recs, h)].file_path)
    } else {
        blobs
    }
}

/// The view of a fetched chunk stream.
pub open spec fn responses_view(s: Seq<FetchFileResponse>) -> Seq<Seq<u8>> {
    s.map_values(|fr: FetchFileResponse| fr.chunk@)
}

/// The service: the metadata store, the storage directory, and the configured
/// chunk size of outbound streams.
pub struct FileStorage {
    pub db: DbState,
    pub storage_folder: String,
    pub chunk_size: u64,
}

impl FileStorage {
    /// Well-formed: the metadata store is, and the chunk size is positive.
    pub open spec fn wf(&self) -> bool {
        &&& self.db.wf()
        &&& self.chunk_size >= 1
    }

    /// Validated construction. The chunk size must be positive; an invalid
    /// configuration yields `None` and is fatal at startup, never a runtime
    /// error. (That the storage directory exists is the caller's check: it
    /// owns the real filesystem.)
    pub fn new(db: DbState, storage_folder: String, chunk_size: u64) -> (r: Option<FileStorage>)
        ensures
            r is Some <==> chunk_size >= 1,
            r matches Some(fs) ==> fs == (FileStorage { db, storage_folder, chunk_size }),
    {
        if chunk_size < 1 {
            return None;
        }
        Some(FileStorage { db, storage_folder, chunk_size })
    }

    /// Handle one upload transfer whose destination is stamped with `stamp`:
    /// the first message must name the file, every later one carries a chunk.
    /// The bytes land at the stamped path as they arrive and the digest is
    /// accumulated over the same bytes in the same order; on success one new
    /// record is committed, never before the whole transfer is in. On any
    /// failure no record is committed, and at most the one partly-written
    /// blob is left behind.
    #[verifier::loop_isolation(false)]
    pub fn upload_file_with_stamp(
        &mut self,
        disk: &mut Disk,
        requests: &Vec<UploadFileRequest>,
        stamp: &String,
    ) -> (r: Result<UploadFileResponse, Status>)
        requires
            old(self).wf(),
            old(disk).wf(),
        ensures
            final(self).wf(),
            final(disk).wf(),
            final(self).storage_folder == old(self).storage_folder,
            final(self).chunk_size == old(self).chunk_size,
            ({
                let st = upload_parse(requests@, requests@.len() as int);
                match r {
                    Ok(resp) => {
                        &&& old(self).db.can_assign_id()
                        &&& st matches UploadParse::Named { name, content }
                            && resp.file_name@ == name && resp.file_hash@ == sha256_hex_of(content)
                            && upload_committed(
                            old(self).db@,
                            old(disk)@,
                            old(self).storage_folder@,
                            stamp@,
                            old(self).db.spec_next_id(),
                            name,
                            content,
                            final(self).db@,
                            final(disk)@,
                        )
                    },
                    Err(status) => {
                        &&& status.code == StatusCode::Internal
                        &&& final(self).db@ == old(self).db@
                        &&& match st {
                            UploadParse::Start => final(disk)@ == old(disk)@ && status.message@
                                == "File name didn't specified yet!"@,
                            UploadParse::FailedEarly => final(disk)@ == old(disk)@
                                && status.message@ == "File name didn't specified yet!"@,
                            UploadParse::FailedLate { name, content } => final(disk)@ == old(
                                disk,
                            )@.insert(
                                blob_path_spec(old(self).storage_folder@, stamp@, name),
                                content,
                            ) && status.message@ == "File name already specified!"@,
                            UploadParse::Named { name, content } => !old(self).db.can_assign_id()
                                && final(disk)@ == old(disk)@.insert(
                                blob_path_spec(old(self).storage_folder@, stamp@, name),
                                content,
                            ) && status.message@ == "Internal service error!"@,
                        }
                    },
                }
            }),
    {
        let mut named: Option<(String, String)> = None;
        let mut hasher = ContentHasher::new();
        let mut i: usize = 0;
        while i < requests.len()
            invariant
                i <= requests.len(),
                self == old(self),
                disk.wf(),
                match named {
                    Some(np) => upload_parse(requests@, i as int) == (UploadParse::Named {
                        name: np.0@,
                        content: hasher@,
                    }) && np.1@ == blob_path_spec(self.storage_folder@, stamp@, np.0@) && disk@
                        == old(disk)@.insert(np.1@, hasher@),
                    None => upload_parse(requests@, i as int) == UploadParse::Start && hasher@
                        == Seq::<u8>::empty() && disk@ == old(disk)@,
                },
            decreases requests.len() - i,
        {
            proof {
                assert(upload_parse(requests@, i as int + 1) == upload_step(
                    upload_parse(requests@, i as int),
                    requests@[i as int].data,
                ));
            }
            match &requests[i].data {
                None => {},
                Some(UploadData::FileName(n)) => {
                    if named.is_some() {
                        proof {
                            lemma_upload_parse_failed_stable(
                                requests@,
                                i as int + 1,
                                requests@.len() as int,
                            );
                        }
                        return Err(
                            Status {
                                code: StatusCode::Internal,
                                message: String::from_str("File name already specified!"),
                            },
                        );
                    }
                    let path = blob_path(&self.storage_folder, stamp, n);
                    disk.create(&path);
                    named = Some((n.clone(), path));
                    proof {
                        assert(disk@ =~= old(disk)@.insert(
                            blob_path_spec(self.storage_folder@, stamp@, n@),
                            hasher@,
                        ));
                    }
                },
                Some(UploadData::Chunk(c)) => {
                    match &named {
                        None => {
                            proof {
                                lemma_upload_parse_failed_stable(
                                    requests@,
                                    i as int + 1,
                                    requests@.len() as int,
                                );
                            }
                            return Err(
                                Status {
                                    code: StatusCode::Internal,
                                    message: String::from_str("File name didn't specified yet!"),
                                },
                            );
                        },
                        Some(np) => {
                            hasher.update(c);
                            disk.append(&np.1, c);
                            proof {
                                assert(disk@ =~= old(disk)@.insert(np.1@, hasher@));
                            }
                        },
                    }
                },
            }
            i += 1;
        }
        match named {
            None => Err(
                Status {
                    code: StatusCode::Internal,
                    message: String::from_str("File name didn't specified yet!"),
                },
            ),
            Some(np) => {
                let (file_name, file_path) = np;
                let file_hash = hasher.finalize_hex();
                match self.db.add_new_item(
                    &NewStoreItem { file_name, file_path, file_hash },
                ) {
                    Ok(rec) => Ok(
                        UploadFileResponse { file_name: rec.file_name, file_hash: rec.file_hash },
                    ),
                    Err(_) => Err(
                        Status {
                            code: StatusCode::Internal,
                            message: String::from_str("Internal service error!"),
                        },
                    ),
                }
            },
        }
    }

    /// Handle one upload transfer; the destination path is stamped with the
    /// upload's start time, so the committed path is known only up to the
    /// stamp.
    pub fn upload_file(&mut self, disk: &mut Disk, requests: &Vec<UploadFileRequest>) -> (r: Result<
        UploadFileResponse,
        Status,
    >)
        requires
            old(self).wf(),
            old(disk).wf(),
        ensures
            final(self).wf(),
            final(disk).wf(),
            final(self).storage_folder == old(self).storage_folder,
            final(self).chunk_size == old(self).chunk_size,
            ({
                let st = upload_parse(requests@, requests@.len() as int);
                match r {
                    Ok(resp) => {
                        &&& old(self).db.can_assign_id()
                        &&& st matches UploadParse::Named { name, content }
                            && resp.file_name@ == name && resp.file_hash@ == sha256_hex_of(content)
                            && exists|stamp: Seq<char>|
                            upload_committed(
                                old(self).db@,
                                old(disk)@,
                                old(self).storage_folder@,
                                stamp,
                                old(self).db.spec_next_id(),
                                name,
                                content,
                                final(self).db@,
                                final(disk)@,
                            )
                    },
                    Err(status) => {
                        &&& status.code == StatusCode::Internal
                        &&& final(self).db@ == old(self).db@
                        &&& !(st is Named && old(self).db.can_assign_id())
                        &&& (st is Start || st is FailedEarly) ==> final(disk)@ == old(disk)@
                        &&& (st is FailedLate || st is Named) ==> exists|p: Seq<char>, c: Seq<u8>|
                            final(disk)@ == old(disk)@.insert(p, c)
                    },
                }
            }),
    {
        let stamp = now_millis_string();
        let r = self.upload_file_with_stamp(disk, requests, &stamp);
        proof {
            let st = upload_parse(requests@, requests@.len() as int);
            if r is Ok {
                assert(exists|s: Seq<char>|
                    upload_committed(
                        old(self).db@,
                        old(disk)@,
                        old(self).storage_folder@,
                        s,
                        old(self).db.spec_next_id(),
                        st->Named_name,
                        st->Named_content,
                        self.db@,
                        disk@,
                    )) by {
                    assert(upload_committed(
                        old(self).db@,
                        old(disk)@,
                        old(self).storage_folder@,
                        stamp@,
                        old(self).db.spec_next_id(),
                        st->Named_name,
                        st->Named_content,
                        self.db@,
                        disk@,
                    ));
                }
            } else {
                if st is FailedLate || st is Named {
                    let name = if st is FailedLate {
                        st->FailedLate_name
                    } else {
                        st->Named_name
                    };
                    let content = if st is FailedLate {
                        st->FailedLate_content
                    } else {
                        st->Named_content
                    };
                    assert(disk@ == old(disk)@.insert(
                        blob_path_spec(old(self).storage_folder@, stamp@, name),
                        content,
                    ));
                }
            }
        }
        r
    }

    /// Handle a fetch: look the hash up, refuse a broken or blob-less record
    /// (flagging the latter), and otherwise return the blob's chunks in file
    /// order — every chunk of the configured size but the last.
    #[verifier::loop_isolation(false)]
    pub fn fetch_file(&mut self, disk: &Disk, request: FetchFileRequest) -> (r: Result<
        Vec<FetchFileResponse>,
        Status,
    >)
        requires
            old(self).wf(),
            disk.wf(),
        ensures
            final(self).wf(),
            final(self).storage_folder == old(self).storage_folder,
            final(self).chunk_size == old(self).chunk_size,
            final(self).db@ == fetch_records_after(old(self).db@, disk@, request.file_hash@),
            ({
                let out = fetch_outcome(
                    old(self).db@,
                    disk@,
                    request.file_hash@,
                    old(self).chunk_size as int,
                );
                match r {
                    Ok(responses) => out == FetchModel::Chunks(responses_view(responses@)),
                    Err(status) => {
                        &&& status.code == StatusCode::NotFound
                        &&& match out {
                            FetchModel::NoRecord => status.message@
                                == "Could not found such hash!"@,
                            FetchModel::BlobMissing => status.message@ == "File not found!"@,
                            FetchModel::Flagged => status.message@ == "File not found!"@,
                            FetchModel::Chunks(_) => false,
                        }
                    },
                }
            }),
    {
        match self.db.get_file_by_hash(request.file_hash) {
            Some(item) => {
                if !disk.contains_path(&item.file_path) {
                    let _ = reconcile_missing_blob(&mut self.db, item.id);
                    return Err(
                        Status {
                            code: StatusCode::NotFound,
                            message: String::from_str("File not found!"),
                        },
                    );
                }
                if item.file_is_error {
                    return Err(
                        Status {
                            code: StatusCode::NotFound,
                            message: String::from_str("File not found!"),
                        },
                    );
                }
                let blob = match disk.read(&item.file_path) {
                    Some(b) => b,
                    None => vstd::pervasive::unreached(),
                };
                let chunk_vecs = split_chunks(blob.as_slice(), self.chunk_size);
                let mut responses: Vec<FetchFileResponse> = Vec::new();
                let mut i: usize = 0;
                proof {
                    assert(responses_view(responses@) =~= chunk_views(chunk_vecs@).take(0));
                }
                while i < chunk_vecs.len()
                    invariant
                        i <= chunk_vecs.len(),
                        responses_view(responses@) == chunk_views(chunk_vecs@).take(i as int),
                    decreases chunk_vecs.len() - i,
                {
                    responses.push(
                        FetchFileResponse {
                            chunk: vstd::slice::slice_to_vec(chunk_vecs[i].as_slice()),
                        },
                    );
                    proof {
                        assert(responses_view(responses@) =~= chunk_views(chunk_vecs@).take(
                            i as int + 1,
                        ));
                    }
                    i += 1;
                }
                proof {
                    assert(chunk_views(chunk_vecs@).take(chunk_vecs@.len() as int) =~= chunk_views(
                        chunk_vecs@,
                    ));
                }
                Ok(responses)
            },
            None => Err(
                Status {
                    code: StatusCode::NotFound,
                    message: String::from_str("Could not found such hash!"),
                },
            ),
        }
    }

    /// Handle a delete: the record is removed exactly when its blob was
    /// removed in the same operation. A blob already gone flags the record
    /// (kept for audit) instead of removing it.
    pub fn delete_file(&mut self, disk: &mut Disk, request: DeleteFileRequest) -> (r: Result<
        DeleteFileResponse,
        Status,
    >)
        requires
            old(self).wf(),
            old(disk).wf(),
        ensures
            final(self).wf(),
            final(disk).wf(),
            final(self).storage_folder == old(self).storage_folder,
            final(self).chunk_size == old(self).chunk_size,
            final(self).db@ == delete_records_after(old(self).db@, old(disk)@, request.file_hash@),
            final(disk)@ == delete_blobs_after(old(self).db@, old(disk)@, request.file_hash@),
            ({
                let out = delete_outcome(old(self).db@, old(disk)@, request.file_hash@);
                match r {
                    Ok(resp) => out == DeleteModel::Deleted && resp.code == OK_CODE
                        && resp.message@ == "Ok"@,
                    Err(status) => match out {
                        DeleteModel::RecordNotFound => status.code == StatusCode::NotFound
                            && status.message@ == "Record not found!"@,
                        DeleteModel::FlaggedMissing => status.code == StatusCode::Internal
                            && status.message@ == "Could not find file!"@,
                        DeleteModel::AlreadyFlaggedMissing => status.code == StatusCode::NotFound
                            && status.message@ == "File not found!"@,
                        DeleteModel::Deleted => false,
                    },
                }
            }),
    {
        let hash = request.file_hash;
        match self.db.get_file_by_hash(hash.clone()) {
            None => Err(
                Status {
                    code: StatusCode::NotFound,
                    message: String::from_str("Record not found!"),
                },
            ),
            Some(item) => {
                if !disk.contains_path(&item.file_path) {
                    if !item.file_is_error {
                        let _ = reconcile_missing_blob(&mut self.db, item.id);
                        return Err(
                            Status {
                                code: StatusCode::Internal,
                                message: String::from_str("Could not find file!"),
                            },
                        );
                    }
                    return Err(
                        Status {
                            code: StatusCode::NotFound,
                            message: String::from_str("File not found!"),
                        },
                    );
                }
                disk.remove(&item.file_path);
                match self.db.remove_item_by_hash(hash) {
                    Ok(_removed) => Ok(
                        DeleteFileResponse { code: OK_CODE, message: String::from_str("Ok") },
                    ),
                    Err(_) => vstd::pervasive::unreached(),
                }
            },
        }
    }
}

/// The delete policy when the blob exists but its removal from the real
/// filesystem fails: the record is deliberately kept — removing it would let
/// the blob's space leak silently — flagged errored, and the failure is
/// reported as internal.
pub fn on_blob_removal_failure(db: &mut DbState, rec_id: i32) -> (r: Status)
    requires
        old(db).wf(),
    ensures
        final(db).wf(),
        final(db)@ == set_error_flag(old(db)@, rec_id as int, true),
        final(db).spec_next_id() == old(db).spec_next_id(),
        r.code == StatusCode::Internal,
        r.message@ == "Internal service error!"@,
{
    let _ = reconcile_missing_blob(db, rec_id);
    Status { code: StatusCode::Internal, message: String::from_str("Internal service error!") }
}

} // verus!
