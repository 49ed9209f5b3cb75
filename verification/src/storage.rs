//! The service's message and status types: the requests and responses of the
//! three operations (upload, fetch, delete) and the status a failing operation
//! reports.

use vstd::prelude::*;

verus! {

/// The payload of one upload message: either the file's name (the first
/// message of a transfer) or one chunk of its bytes (every later message).
pub enum UploadData {
    FileName(String),
    Chunk(Vec<u8>),
}

/// One message of an upload transfer. A message may carry no payload at all;
/// such a message is skipped.
pub struct UploadFileRequest {
    pub data: Option<UploadData>,
}

/// The reply to a completed upload: the name the client sent and the content
/// hash the store computed.
#[derive(Debug)]
pub struct UploadFileResponse {
    pub file_name: String,
    pub file_hash: String,
}

/// A fetch request: the content hash to look up.
pub struct FetchFileRequest {
    pub file_hash: String,
}

/// One chunk of a fetched file.
#[derive(Debug)]
pub struct FetchFileResponse {
    pub chunk: Vec<u8>,
}

/// A delete request: the content hash to remove.
pub struct DeleteFileRequest {
    pub file_hash: String,
}

/// The reply to a successful delete. `code` is `OK_CODE` and `message` is
/// `"Ok"`.
#[derive(Debug)]
pub struct DeleteFileResponse {
    pub code: i32,
    pub message: String,
}

/// The wire status code of a successful delete reply.
pub const OK_CODE: i32 = 0;

/// How a failing operation is classified.
#[derive(Clone, Copy, Debug, PartialEq, Eq, Structural)]
pub enum StatusCode {
    /// The hash has no record, or its record's blob is missing.
    NotFound,
    /// A protocol violation, a store failure, or a blob that could not be
    /// removed.
    Internal,
}

/// The error a failing operation reports: a code and a human-readable message.
#[derive(Debug)]
pub struct Status {
    pub code: StatusCode,
    pub message: String,
}

} // verus!
