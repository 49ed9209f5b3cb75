//! The persisted metadata entity and its mathematical model.

use vstd::prelude::*;

verus! {

/// A persisted metadata record describing one stored blob.
#[derive(Debug)]
pub struct StoreItem {
    /// Store-assigned identity, unique among live records.
    pub id: i32,
    /// The client-supplied name; not required to be unique.
    pub file_name: String,
    /// Where the blob lives in the blob store.
    pub file_path: String,
    /// Hex-encoded SHA-256 digest of the blob's full content; the external
    /// lookup key. Several records may share one hash.
    pub file_hash: String,
    /// Health flag: set once a read or delete discovers the blob is missing.
    /// A flagged record is kept for audit and never served.
    pub file_is_error: bool,
}

/// The fields of a record about to be inserted; the store assigns the id and
/// clears the health flag.
pub struct NewStoreItem {
    pub file_name: String,
    pub file_path: String,
    pub file_hash: String,
}

/// The mathematical model of a record: every field as a plain value.
pub ghost struct Record {
    pub id: int,
    pub file_name: Seq<char>,
    pub file_path: Seq<char>,
    pub file_hash: Seq<char>,
    pub file_is_error: bool,
}

impl View for StoreItem {
    type V = Record;

    open spec fn view(&self) -> Record {
        Record {
            id: self.id as int,
            file_name: self.file_name@,
            file_path: self.file_path@,
            file_hash: self.file_hash@,
            file_is_error: self.file_is_error,
        }
    }
}

impl Clone for StoreItem {
    fn clone(&self) -> (r: Self)
        ensures
            r == *self,
    {
        StoreItem {
            id: self.id,
            file_name: self.file_name.clone(),
            file_path: self.file_path.clone(),
            file_hash: self.file_hash.clone(),
            file_is_error: self.file_is_error,
        }
    }
}

} // verus!
