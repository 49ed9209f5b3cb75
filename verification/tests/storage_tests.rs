//! End-to-end tests of the store: upload, fetch, delete, and the
//! reconciliation policy, against the real SHA-256 digest.

use file_hash_service::db::{DbError, DbState};
use file_hash_service::disk::Disk;
use file_hash_service::grpc::{on_blob_removal_failure, FileStorage};
use file_hash_service::reconcile::reconcile_missing_blob;
use file_hash_service::storage::{
    DeleteFileRequest, FetchFileRequest, Status, StatusCode, UploadData, UploadFileRequest,
    UploadFileResponse, OK_CODE,
};

const HELLO_HASH: &str = "2cf24dba5fb0a30e26e83b2ac5b9e29e1b161e5c1fa7425e73043362938b9824";
const HALLO_HASH: &str = "d3751d33f9cd5049c4af2b462735457e4d3baf130bcbb87f389e349fbaeb20b9";
const ALPHA_HASH: &str = "8ed3f6ad685b959ead7022518e1af76cd816f8e8ec7ccdda1ed4018e8f2223f8";
const BETA_HASH: &str = "f44e64e75f3948e9f73f8dfa94721c4ce8cbb4f265c4790c702b2d41cfbf2753";
const EMPTY_HASH: &str = "e3b0c44298fc1c149afbf4c8996fb92427ae41e4649b934ca495991b7852b855";

fn new_service(chunk_size: u64) -> FileStorage {
    FileStorage::new(DbState::new(), String::from("/data"), chunk_size)
        .expect("a positive chunk size is valid")
}

fn name_message(name: &str) -> UploadFileRequest {
    UploadFileRequest {
        data: Some(UploadData::FileName(String::from(name))),
    }
}

fn chunk_message(bytes: &[u8]) -> UploadFileRequest {
    UploadFileRequest {
        data: Some(UploadData::Chunk(bytes.to_vec())),
    }
}

fn upload(
    fs: &mut FileStorage,
    disk: &mut Disk,
    stamp: &str,
    name: &str,
    content: &[u8],
) -> Result<UploadFileResponse, Status> {
    let requests = vec![name_message(name), chunk_message(content)];
    fs.upload_file_with_stamp(disk, &requests, &String::from(stamp))
}

fn fetch_concat(fs: &mut FileStorage, disk: &Disk, hash: &str) -> Result<Vec<u8>, Status> {
    let responses = fs.fetch_file(
        disk,
        FetchFileRequest {
            file_hash: String::from(hash),
        },
    )?;
    let mut bytes = Vec::new();
    for response in responses {
        bytes.extend_from_slice(&response.chunk);
    }
    Ok(bytes)
}

fn delete(fs: &mut FileStorage, disk: &mut Disk, hash: &str) -> Result<(i32, String), Status> {
    let response = fs.delete_file(
        disk,
        DeleteFileRequest {
            file_hash: String::from(hash),
        },
    )?;
    Ok((response.code, response.message))
}

#[test]
fn upload_fetch_delete_scenario() {
    let mut fs = new_service(4);
    let mut disk = Disk::new();

    let resp = upload(&mut fs, &mut disk, "123", "a.txt", b"hello").expect("upload commits");
    assert_eq!(resp.file_name, "a.txt");
    assert_eq!(resp.file_hash, HELLO_HASH);

    let record = fs
        .db
        .get_file_by_hash(String::from(HELLO_HASH))
        .expect("the record was committed");
    assert_eq!(record.file_name, "a.txt");
    assert_eq!(record.file_path, "/data/123_a.txt");
    assert_eq!(record.file_hash, HELLO_HASH);
    assert!(!record.file_is_error);

    let bytes = fetch_concat(&mut fs, &disk, HELLO_HASH).expect("fetch succeeds");
    assert_eq!(bytes, b"hello");

    let (code, message) = delete(&mut fs, &mut disk, HELLO_HASH).expect("delete succeeds");
    assert_eq!(code, OK_CODE);
    assert_eq!(message, "Ok");

    let err = fetch_concat(&mut fs, &disk, HELLO_HASH).expect_err("the record is gone");
    assert_eq!(err.code, StatusCode::NotFound);
    assert_eq!(err.message, "Could not found such hash!");
}

#[test]
fn fetch_chunk_boundaries() {
    let mut fs = new_service(3);
    let mut disk = Disk::new();
    upload(&mut fs, &mut disk, "1", "c.bin", b"abcdefgh").expect("upload commits");
    let hash = "9c56cc51b374c3ba189210d5b6d4bf57790d351c96c47c02190ecf1e430635ab";
    let responses = fs
        .fetch_file(
            &disk,
            FetchFileRequest {
                file_hash: String::from(hash),
            },
        )
        .expect("fetch succeeds");
    let sizes: Vec<usize> = responses.iter().map(|r| r.chunk.len()).collect();
    assert_eq!(sizes, vec![3, 3, 2]);
    let mut bytes = Vec::new();
    for response in &responses {
        bytes.extend_from_slice(&response.chunk);
    }
    assert_eq!(bytes, b"abcdefgh");
}

#[test]
fn fetch_exact_multiple_of_chunk_size() {
    let mut fs = new_service(4);
    let mut disk = Disk::new();
    upload(&mut fs, &mut disk, "1", "c.bin", b"abcdefgh").expect("upload commits");
    let hash = "9c56cc51b374c3ba189210d5b6d4bf57790d351c96c47c02190ecf1e430635ab";
    let responses = fs
        .fetch_file(
            &disk,
            FetchFileRequest {
                file_hash: String::from(hash),
            },
        )
        .expect("fetch succeeds");
    let sizes: Vec<usize> = responses.iter().map(|r| r.chunk.len()).collect();
    assert_eq!(sizes, vec![4, 4]);
}

#[test]
fn upload_empty_content() {
    let mut fs = new_service(8);
    let mut disk = Disk::new();
    let requests = vec![name_message("empty.txt")];
    let resp = fs
        .upload_file_with_stamp(&mut disk, &requests, &String::from("7"))
        .expect("a name alone commits an empty blob");
    assert_eq!(resp.file_hash, EMPTY_HASH);
    let bytes = fetch_concat(&mut fs, &disk, EMPTY_HASH).expect("fetch succeeds");
    assert_eq!(bytes, b"");
}

#[test]
fn upload_multiple_chunks_hash_matches_whole() {
    let mut fs = new_service(64);
    let mut disk = Disk::new();
    let requests = vec![
        name_message("h.txt"),
        chunk_message(b"he"),
        UploadFileRequest { data: None },
        chunk_message(b"llo"),
    ];
    let resp = fs
        .upload_file_with_stamp(&mut disk, &requests, &String::from("9"))
        .expect("upload commits");
    assert_eq!(resp.file_hash, HELLO_HASH);
    let bytes = fetch_concat(&mut fs, &disk, HELLO_HASH).expect("fetch succeeds");
    assert_eq!(bytes, b"hello");
}

#[test]
fn hash_changes_with_content() {
    let mut fs = new_service(16);
    let mut disk = Disk::new();
    let a = upload(&mut fs, &mut disk, "1", "a.txt", b"hello").expect("upload commits");
    let b = upload(&mut fs, &mut disk, "2", "b.txt", b"hallo").expect("upload commits");
    assert_eq!(a.file_hash, HELLO_HASH);
    assert_eq!(b.file_hash, HALLO_HASH);
    assert_ne!(a.file_hash, b.file_hash);
}

#[test]
fn upload_chunk_before_name_fails() {
    let mut fs = new_service(16);
    let mut disk = Disk::new();
    let requests = vec![chunk_message(b"hello"), name_message("late.txt")];
    let err = fs
        .upload_file_with_stamp(&mut disk, &requests, &String::from("1"))
        .expect_err("a chunk before any name is a protocol violation");
    assert_eq!(err.code, StatusCode::Internal);
    assert_eq!(err.message, "File name didn't specified yet!");
    assert!(fs.db.get_file_by_hash(String::from(HELLO_HASH)).is_none());
}

#[test]
fn upload_second_name_fails() {
    let mut fs = new_service(16);
    let mut disk = Disk::new();
    let requests = vec![name_message("one.txt"), name_message("two.txt")];
    let err = fs
        .upload_file_with_stamp(&mut disk, &requests, &String::from("1"))
        .expect_err("a second name is a protocol violation");
    assert_eq!(err.code, StatusCode::Internal);
    assert_eq!(err.message, "File name already specified!");
    assert!(fs.db.get_file_by_hash(String::from(EMPTY_HASH)).is_none());
}

#[test]
fn upload_without_any_name_fails() {
    let mut fs = new_service(16);
    let mut disk = Disk::new();
    let requests: Vec<UploadFileRequest> = Vec::new();
    let err = fs
        .upload_file_with_stamp(&mut disk, &requests, &String::from("1"))
        .expect_err("a transfer with no name commits nothing");
    assert_eq!(err.code, StatusCode::Internal);
    assert_eq!(err.message, "File name didn't specified yet!");
}

#[test]
fn delete_unknown_hash_fails_twice() {
    let mut fs = new_service(16);
    let mut disk = Disk::new();
    for _ in 0..2 {
        let err = delete(&mut fs, &mut disk, HELLO_HASH).expect_err("nothing was uploaded");
        assert_eq!(err.code, StatusCode::NotFound);
        assert_eq!(err.message, "Record not found!");
    }
}

#[test]
fn delete_twice_after_success_fails_second_time() {
    let mut fs = new_service(16);
    let mut disk = Disk::new();
    upload(&mut fs, &mut disk, "1", "a.txt", b"hello").expect("upload commits");
    delete(&mut fs, &mut disk, HELLO_HASH).expect("the first delete succeeds");
    let err = delete(&mut fs, &mut disk, HELLO_HASH).expect_err("the record is gone");
    assert_eq!(err.code, StatusCode::NotFound);
    assert_eq!(err.message, "Record not found!");
}

#[test]
fn fetch_missing_blob_flags_record() {
    let mut fs = new_service(16);
    let mut disk = Disk::new();
    upload(&mut fs, &mut disk, "1", "a.txt", b"hello").expect("upload commits");
    let record = fs
        .db
        .get_file_by_hash(String::from(HELLO_HASH))
        .expect("the record exists");
    assert!(disk.remove(&record.file_path), "the blob was there");

    let err = fetch_concat(&mut fs, &disk, HELLO_HASH).expect_err("the blob is gone");
    assert_eq!(err.code, StatusCode::NotFound);
    assert_eq!(err.message, "File not found!");

    let flagged = fs
        .db
        .get_file_by_hash(String::from(HELLO_HASH))
        .expect("the record is kept, not deleted");
    assert!(flagged.file_is_error);
    assert_eq!(flagged.id, record.id);
}

#[test]
fn delete_missing_blob_flags_record_and_keeps_it() {
    let mut fs = new_service(16);
    let mut disk = Disk::new();
    upload(&mut fs, &mut disk, "1", "a.txt", b"hello").expect("upload commits");
    let record = fs
        .db
        .get_file_by_hash(String::from(HELLO_HASH))
        .expect("the record exists");
    assert!(disk.remove(&record.file_path));

    let err = delete(&mut fs, &mut disk, HELLO_HASH).expect_err("the blob is gone");
    assert_eq!(err.code, StatusCode::Internal);
    assert_eq!(err.message, "Could not find file!");

    let flagged = fs
        .db
        .get_file_by_hash(String::from(HELLO_HASH))
        .expect("the record is kept");
    assert!(flagged.file_is_error);

    let err = delete(&mut fs, &mut disk, HELLO_HASH).expect_err("still not deletable");
    assert_eq!(err.code, StatusCode::NotFound);
    assert_eq!(err.message, "File not found!");
}

#[test]
fn flagged_record_is_not_served() {
    let mut fs = new_service(16);
    let mut disk = Disk::new();
    upload(&mut fs, &mut disk, "1", "a.txt", b"hello").expect("upload commits");
    let record = fs
        .db
        .get_file_by_hash(String::from(HELLO_HASH))
        .expect("the record exists");
    reconcile_missing_blob(&mut fs.db, record.id).expect("the id exists");

    let err = fetch_concat(&mut fs, &disk, HELLO_HASH).expect_err("a broken record is never served");
    assert_eq!(err.code, StatusCode::NotFound);
    assert_eq!(err.message, "File not found!");
}

#[test]
fn independent_uploads_fetch_their_own_content() {
    let mut fs = new_service(2);
    let mut disk = Disk::new();
    let a = upload(&mut fs, &mut disk, "1", "a.txt", b"alpha").expect("upload commits");
    let b = upload(&mut fs, &mut disk, "2", "b.txt", b"beta").expect("upload commits");
    assert_eq!(a.file_hash, ALPHA_HASH);
    assert_eq!(b.file_hash, BETA_HASH);

    let alpha = fetch_concat(&mut fs, &disk, ALPHA_HASH).expect("fetch succeeds");
    let beta = fetch_concat(&mut fs, &disk, BETA_HASH).expect("fetch succeeds");
    assert_eq!(alpha, b"alpha");
    assert_eq!(beta, b"beta");
}

#[test]
fn duplicate_content_keeps_both_records() {
    let mut fs = new_service(16);
    let mut disk = Disk::new();
    upload(&mut fs, &mut disk, "1", "a.txt", b"hello").expect("upload commits");
    upload(&mut fs, &mut disk, "2", "a.txt", b"hello").expect("a duplicate is a new record");

    delete(&mut fs, &mut disk, HELLO_HASH).expect("the first record is deleted");
    let bytes = fetch_concat(&mut fs, &disk, HELLO_HASH).expect("the second record still serves");
    assert_eq!(bytes, b"hello");

    delete(&mut fs, &mut disk, HELLO_HASH).expect("the second record is deleted");
    let err = fetch_concat(&mut fs, &disk, HELLO_HASH).expect_err("nothing is left");
    assert_eq!(err.code, StatusCode::NotFound);
}

#[test]
fn reconcile_is_idempotent() {
    let mut fs = new_service(16);
    let mut disk = Disk::new();
    upload(&mut fs, &mut disk, "1", "a.txt", b"hello").expect("upload commits");
    let record = fs
        .db
        .get_file_by_hash(String::from(HELLO_HASH))
        .expect("the record exists");

    let once = reconcile_missing_blob(&mut fs.db, record.id).expect("the id exists");
    assert!(once.file_is_error);
    let twice = reconcile_missing_blob(&mut fs.db, record.id).expect("re-flagging is a no-op");
    assert!(twice.file_is_error);

    assert_eq!(once.id, twice.id);
    assert_eq!(once.file_name, twice.file_name);
    assert_eq!(once.file_path, twice.file_path);
    assert_eq!(once.file_hash, twice.file_hash);
}

#[test]
fn reconcile_unknown_id_fails() {
    let mut db = DbState::new();
    assert_eq!(
        reconcile_missing_blob(&mut db, 42).expect_err("no record has the id"),
        DbError::NotFound
    );
}

#[test]
fn blob_removal_failure_policy_flags_and_keeps() {
    let mut fs = new_service(16);
    let mut disk = Disk::new();
    upload(&mut fs, &mut disk, "1", "a.txt", b"hello").expect("upload commits");
    let record = fs
        .db
        .get_file_by_hash(String::from(HELLO_HASH))
        .expect("the record exists");

    let status = on_blob_removal_failure(&mut fs.db, record.id);
    assert_eq!(status.code, StatusCode::Internal);
    assert_eq!(status.message, "Internal service error!");

    let kept = fs
        .db
        .get_file_by_hash(String::from(HELLO_HASH))
        .expect("the record is deliberately kept");
    assert!(kept.file_is_error);
}

#[test]
fn config_rejects_zero_chunk_size() {
    assert!(FileStorage::new(DbState::new(), String::from("/data"), 0).is_none());
    assert!(FileStorage::new(DbState::new(), String::from("/data"), 1).is_some());
}

#[test]
fn upload_with_real_clock_stamp() {
    let mut fs = new_service(4);
    let mut disk = Disk::new();
    let requests = vec![name_message("a.txt"), chunk_message(b"hello")];
    let resp = fs
        .upload_file(&mut disk, &requests)
        .expect("upload commits");
    assert_eq!(resp.file_hash, HELLO_HASH);
    let record = fs
        .db
        .get_file_by_hash(String::from(HELLO_HASH))
        .expect("the record exists");
    assert!(record.file_path.starts_with("/data/"));
    assert!(record.file_path.ends_with("_a.txt"));
    let bytes = fetch_concat(&mut fs, &disk, HELLO_HASH).expect("fetch succeeds");
    assert_eq!(bytes, b"hello");
}

#[test]
fn db_assigns_unique_increasing_ids() {
    let mut fs = new_service(16);
    let mut disk = Disk::new();
    upload(&mut fs, &mut disk, "1", "a.txt", b"alpha").expect("upload commits");
    upload(&mut fs, &mut disk, "2", "b.txt", b"beta").expect("upload commits");
    let a = fs
        .db
        .get_file_by_hash(String::from(ALPHA_HASH))
        .expect("first record");
    let b = fs
        .db
        .get_file_by_hash(String::from(BETA_HASH))
        .expect("second record");
    assert!(a.id < b.id);
}
