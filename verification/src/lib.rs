//! A content-addressed file store: clients upload files in chunks, the store
//! computes a SHA-256 content hash while the bytes are written, persists a
//! metadata record keyed by that hash, and later serves the same bytes back as
//! a chunked stream or deletes them.
//!
//! The store coordinates two independently-failing resources: the blob store
//! (the file bytes, [`disk::Disk`]) and the metadata store (name, path, hash,
//! health flag, [`db::DbState`]). Divergence between the two is never resolved
//! silently: a record whose blob is missing is flagged errored and kept for
//! audit, and a record is removed only when its blob was removed in the same
//! operation.

pub mod chunks;
pub mod clock;
pub mod db;
pub mod disk;
pub mod grpc;
pub mod hashing;
pub mod laws;
pub mod reconcile;
pub mod models;
pub mod storage;
