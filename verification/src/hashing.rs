//! The content hasher: an incremental accumulator fed chunk by chunk during an
//! upload, finalized to the hex-encoded SHA-256 digest of everything fed.
//!
//! The digest itself comes from the `sha2` crate; its value is named by the
//! uninterpreted [`sha256_hex_of`], a function of the input bytes alone.

use sha2::Digest;
use vstd::prelude::*;

verus! {

/// The hex-encoded SHA-256 digest of a byte sequence: 64 lowercase hex
/// characters, a function of the bytes alone. Computed by `sha2`; what the
/// digest's value is on given bytes is not stated, only that equal bytes give
/// the equal digest.
pub uninterp spec fn sha256_hex_of(bytes: Seq<u8>) -> Seq<char>;

/// Relies on `sha2::Sha256` (`Digest::digest`) and the `LowerHex` rendering of
/// its output: the digest is a function of the input bytes alone, rendered as
/// two lowercase hex digits per digest byte, 64 characters in all.
#[verifier::external_body]
fn sha256_hex(bytes: &Vec<u8>) -> (r: String)
    ensures
        r@ == sha256_hex_of(bytes@),
        r@.len() == 64,
{
    format!("{:x}", sha2::Sha256::digest(bytes.as_slice()))
}

/// An incremental digest accumulator. Its view is the bytes fed so far.
pub struct ContentHasher {
    buf: Vec<u8>,
}

impl View for ContentHasher {
    type V = Seq<u8>;

    closed spec fn view(&self) -> Seq<u8> {
        self.buf@
    }
}

impl ContentHasher {
    /// A fresh accumulator over no bytes.
    pub fn new() -> (r: ContentHasher)
        ensures
            r@ == Seq::<u8>::empty(),
    {
        let r = ContentHasher { buf: Vec::new() };
        proof {
            assert(r@ =~= Seq::<u8>::empty());
        }
        r
    }

    /// Feed one chunk, after everything fed before.
    #[verifier::loop_isolation(false)]
    pub fn update(&mut self, chunk: &Vec<u8>)
        ensures
            final(self)@ == old(self)@ + chunk@,
    {
        let mut j: usize = 0;
        while j < chunk.len()
            invariant
                j <= chunk.len(),
                self.buf@ == old(self).buf@ + chunk@.take(j as int),
            decreases chunk.len() - j,
        {
            self.buf.push(chunk[j]);
            proof {
                assert(self.buf@ =~= old(self).buf@ + chunk@.take(j as int + 1));
            }
            j += 1;
        }
        proof {
            assert(chunk@.take(chunk@.len() as int) =~= chunk@);
        }
    }

    /// Finalize: the hex-encoded SHA-256 digest of the bytes fed, in order.
    pub fn finalize_hex(self) -> (r: String)
        ensures
            r@ == sha256_hex_of(self@),
            r@.len() == 64,
    {
        sha256_hex(&self.buf)
    }
}

} // verus!
