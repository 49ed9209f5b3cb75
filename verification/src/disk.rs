//! The blob store: the file bytes, keyed by path.
//!
//! The store models the server's storage directory: each entry is one blob
//! file. Its mathematical model is a map from path to byte sequence. Creating
//! a path that already exists truncates it, as opening a file for writing
//! does; removal of an absent path reports failure and changes nothing.

use vstd::prelude::*;
use vstd::slice::slice_to_vec;

verus! {

struct BlobFile {
    path: String,
    bytes: Vec<u8>,
}

/// The map a sequence of blob files denotes: later entries shadow earlier
/// ones, though a well-formed store has no two entries with one path.
spec fn files_map(s: Seq<BlobFile>) -> Map<Seq<char>, Seq<u8>>
    decreases s.len(),
{
    if s.len() == 0 {
        Map::empty()
    } else {
        files_map(s.drop_last()).insert(s.last().path@, s.last().bytes@)
    }
}

/// A key of `files_map(s)` is exactly a path of some entry of `s`.
proof fn lemma_files_map_keys(s: Seq<BlobFile>)
    ensures
        forall|p: Seq<char>|
            files_map(s).contains_key(p) <==> exists|i: int| 0 <= i < s.len() && s[i].path@ == p,
    decreases s.len(),
{
    if s.len() > 0 {
        let t = s.drop_last();
        lemma_files_map_keys(t);
        assert(files_map(s) == files_map(t).insert(s.last().path@, s.last().bytes@));
        assert forall|p: Seq<char>|
            files_map(s).contains_key(p) implies exists|i: int|
            0 <= i < s.len() && s[i].path@ == p by {
            if s.last().path@ == p {
                assert(s[s.len() - 1].path@ == p);
            } else {
                assert(files_map(t).contains_key(p));
                let i = choose|i: int| 0 <= i < t.len() && t[i].path@ == p;
                assert(t[i] == s[i]);
                assert(s[i].path@ == p);
            }
        }
        assert forall|p: Seq<char>|
            (exists|i: int| 0 <= i < s.len() && s[i].path@ == p) implies files_map(
            s,
        ).contains_key(p) by {
            let i = choose|i: int| 0 <= i < s.len() && s[i].path@ == p;
            if i < s.len() - 1 {
                assert(t[i] == s[i]);
                assert(t[i].path@ == p);
                assert(files_map(t).contains_key(p));
            } else {
                assert(s.last().path@ == p);
            }
        }
    }
}

/// With pairwise-distinct paths, `files_map(s)` maps each entry's path to
/// that entry's bytes.
proof fn lemma_files_map_index(s: Seq<BlobFile>)
    requires
        forall|i: int, j: int| 0 <= i < j < s.len() ==> s[i].path@ != s[j].path@,
    ensures
        forall|i: int|
            0 <= i < s.len() ==> files_map(s).contains_key(s[i].path@) && files_map(s)[s[i].path@]
                == s[i].bytes@,
    decreases s.len(),
{
    if s.len() > 0 {
        lemma_files_map_index(s.drop_last());
        assert forall|i: int|
            0 <= i < s.len() implies files_map(s).contains_key(s[i].path@) && files_map(
            s,
        )[s[i].path@] == s[i].bytes@ by {
            if i < s.len() - 1 {
                assert(s.drop_last()[i] == s[i]);
                assert(s[i].path@ != s.last().path@);
            }
        }
    }
}

/// Replacing entry `k` by one with the same path updates that path's bytes in
/// the map.
proof fn lemma_files_map_update(s: Seq<BlobFile>, k: int, b: BlobFile)
    requires
        forall|i: int, j: int| 0 <= i < j < s.len() ==> s[i].path@ != s[j].path@,
        0 <= k < s.len(),
        s[k].path@ == b.path@,
    ensures
        files_map(s.update(k, b)) == files_map(s).insert(b.path@, b.bytes@),
    decreases s.len(),
{
    let t = s.update(k, b);
    if k == s.len() - 1 {
        assert(t.drop_last() =~= s.drop_last());
        assert(files_map(t) =~= files_map(s).insert(b.path@, b.bytes@));
    } else {
        lemma_files_map_update(s.drop_last(), k, b);
        assert(t.drop_last() =~= s.drop_last().update(k, b));
        assert(t.last() == s.last());
        lemma_files_map_keys(s.drop_last());
        assert(files_map(t) == files_map(s.drop_last()).insert(b.path@, b.bytes@).insert(
            s.last().path@,
            s.last().bytes@,
        ));
        assert(s[k].path@ != s.last().path@);
        assert(files_map(s.drop_last()).insert(b.path@, b.bytes@).insert(
            s.last().path@,
            s.last().bytes@,
        ) =~= files_map(s).insert(b.path@, b.bytes@));
    }
}

/// Removing entry `k` removes that entry's path from the map, when paths are
/// pairwise distinct.
proof fn lemma_files_map_remove(s: Seq<BlobFile>, k: int)
    requires
        forall|i: int, j: int| 0 <= i < j < s.len() ==> s[i].path@ != s[j].path@,
        0 <= k < s.len(),
    ensures
        files_map(s.remove(k)) == files_map(s).remove(s[k].path@),
    decreases s.len(),
{
    let t = s.remove(k);
    if k == s.len() - 1 {
        assert(t =~= s.drop_last());
        lemma_files_map_keys(s.drop_last());
        assert(files_map(s.remove(k)) =~= files_map(s).remove(s[k].path@));
    } else {
        lemma_files_map_remove(s.drop_last(), k);
        assert(t.drop_last() =~= s.drop_last().remove(k));
        assert(t.last() == s.last());
        assert(files_map(t) == files_map(s.drop_last()).remove(s[k].path@).insert(
            s.last().path@,
            s.last().bytes@,
        ));
        assert(s[k].path@ != s.last().path@);
        assert(files_map(s.drop_last()).remove(s[k].path@).insert(s.last().path@, s.last().bytes@)
            =~= files_map(s).remove(s[k].path@));
    }
}

/// The blob store.
pub struct Disk {
    files: Vec<BlobFile>,
}

impl View for Disk {
    type V = Map<Seq<char>, Seq<u8>>;

    closed spec fn view(&self) -> Map<Seq<char>, Seq<u8>> {
        files_map(self.files@)
    }
}

impl Disk {
    /// Well-formed: no two entries share a path.
    pub closed spec fn wf(&self) -> bool {
        forall|i: int, j: int|
            0 <= i < j < self.files@.len() ==> self.files@[i].path@ != self.files@[j].path@
    }

    /// An empty blob store.
    pub fn new() -> (r: Disk)
        ensures
            r@ == Map::<Seq<char>, Seq<u8>>::empty(),
            r.wf(),
    {
        Disk { files: Vec::new() }
    }

    /// Whether a blob exists at `path`.
    #[verifier::loop_isolation(false)]
    pub fn contains_path(&self, path: &String) -> (r: bool)
        ensures
            r == self@.contains_key(path@),
    {
        proof {
            lemma_files_map_keys(self.files@);
        }
        let mut k: usize = 0;
        while k < self.files.len()
            invariant
                k <= self.files.len(),
                forall|j: int| 0 <= j < k ==> self.files@[j].path@ != path@,
            decreases self.files.len() - k,
        {
            if self.files[k].path == *path {
                return true;
            }
            k += 1;
        }
        false
    }

    /// Create the blob at `path`, empty; an existing blob there is truncated.
    #[verifier::loop_isolation(false)]
    pub fn create(&mut self, path: &String)
        requires
            old(self).wf(),
        ensures
            final(self).wf(),
            final(self)@ == old(self)@.insert(path@, Seq::<u8>::empty()),
    {
        proof {
            lemma_files_map_keys(self.files@);
        }
        let mut k: usize = 0;
        while k < self.files.len()
            invariant
                self == old(self),
                k <= self.files.len(),
                forall|j: int| 0 <= j < k ==> self.files@[j].path@ != path@,
            decreases self.files.len() - k,
        {
            if self.files[k].path == *path {
                let fresh_entry = BlobFile { path: path.clone(), bytes: Vec::new() };
                proof {
                    lemma_files_map_update(self.files@, k as int, fresh_entry);
                }
                self.files[k] = fresh_entry;
                proof {
                    assert forall|i: int, j: int|
                        0 <= i < j < self.files@.len() implies self.files@[i].path@
                        != self.files@[j].path@ by {
                        assert(old(self).files@[i].path@ != old(self).files@[j].path@);
                    }
                }
                return ;
            }
            k += 1;
        }
        let fresh_entry = BlobFile { path: path.clone(), bytes: Vec::new() };
        self.files.push(fresh_entry);
        proof {
            assert(self.files@.drop_last() =~= old(self).files@);
            assert forall|i: int, j: int|
                0 <= i < j < self.files@.len() implies self.files@[i].path@
                != self.files@[j].path@ by {
                if j < self.files@.len() - 1 {
                    assert(old(self).files@[i].path@ != old(self).files@[j].path@);
                } else {
                    assert(old(self).files@[i].path@ != path@);
                }
            }
        }
    }

    /// Append `chunk` to the blob at `path`, which must exist (the upload
    /// handler appends only to the blob it created).
    #[verifier::loop_isolation(false)]
    pub fn append(&mut self, path: &String, chunk: &Vec<u8>)
        requires
            old(self).wf(),
            old(self)@.contains_key(path@),
        ensures
            final(self).wf(),
            final(self)@ == old(self)@.insert(path@, old(self)@[path@] + chunk@),
    {
        proof {
            lemma_files_map_keys(self.files@);
            lemma_files_map_index(self.files@);
        }
        let mut k: usize = 0;
        while k < self.files.len()
            invariant
                self == old(self),
                k <= self.files.len(),
                forall|j: int| 0 <= j < k ==> self.files@[j].path@ != path@,
            decreases self.files.len() - k,
        {
            if self.files[k].path == *path {
                let mut grown = slice_to_vec(self.files[k].bytes.as_slice());
                let mut tail = slice_to_vec(chunk.as_slice());
                grown.append(&mut tail);
                let entry = BlobFile { path: path.clone(), bytes: grown };
                proof {
                    lemma_files_map_update(self.files@, k as int, entry);
                }
                self.files[k] = entry;
                proof {
                    assert forall|i: int, j: int|
                        0 <= i < j < self.files@.len() implies self.files@[i].path@
                        != self.files@[j].path@ by {
                        assert(old(self).files@[i].path@ != old(self).files@[j].path@);
                    }
                }
                return ;
            }
            k += 1;
        }
        proof {
            assert(false);
        }
    }

    /// Read the whole blob at `path`, or `None` when no blob is there.
    #[verifier::loop_isolation(false)]
    pub fn read(&self, path: &String) -> (r: Option<Vec<u8>>)
        requires
            self.wf(),
        ensures
            match r {
                Some(bytes) => self@.contains_key(path@) && bytes@ == self@[path@],
                None => !self@.contains_key(path@),
            },
    {
        proof {
            lemma_files_map_keys(self.files@);
            lemma_files_map_index(self.files@);
        }
        let mut k: usize = 0;
        while k < self.files.len()
            invariant
                k <= self.files.len(),
                forall|j: int| 0 <= j < k ==> self.files@[j].path@ != path@,
            decreases self.files.len() - k,
        {
            if self.files[k].path == *path {
                return Some(slice_to_vec(self.files[k].bytes.as_slice()));
            }
            k += 1;
        }
        None
    }

    /// Remove the blob at `path`; reports whether one was there.
    #[verifier::loop_isolation(false)]
    pub fn remove(&mut self, path: &String) -> (r: bool)
        requires
            old(self).wf(),
        ensures
            final(self).wf(),
            r == old(self)@.contains_key(path@),
            final(self)@ == old(self)@.remove(path@),
    {
        proof {
            lemma_files_map_keys(self.files@);
        }
        let mut k: usize = 0;
        while k < self.files.len()
            invariant
                self == old(self),
                k <= self.files.len(),
                forall|j: int| 0 <= j < k ==> self.files@[j].path@ != path@,
            decreases self.files.len() - k,
        {
            if self.files[k].path == *path {
                proof {
                    lemma_files_map_remove(self.files@, k as int);
                }
                self.files.remove(k);
                proof {
                    assert forall|i: int, j: int|
                        0 <= i < j < self.files@.len() implies self.files@[i].path@
                        != self.files@[j].path@ by {
                        let pi = if i < k { i } else { i + 1 };
                        let pj = if j < k { j } else { j + 1 };
                        assert(old(self).files@[pi].path@ != old(self).files@[pj].path@);
                    }
                }
                return true;
            }
            k += 1;
        }
        proof {
            assert(!old(self)@.contains_key(path@));
            assert(final(self)@ =~= old(self)@.remove(path@));
        }
        false
    }
}

} // verus!
