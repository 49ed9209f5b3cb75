//! Chunking: how a fetched blob is cut into the chunks of the outbound
//! stream. Chunks come in file order, every chunk but the last is exactly the
//! configured size, the last is whatever remains (never empty), and their
//! concatenation is the blob, byte for byte.

use vstd::prelude::*;
use vstd::slice::{slice_subrange, slice_to_vec};

verus! {

/// The chunks of `b` at chunk size `cs`: full chunks of `cs` bytes in order,
/// then the non-empty remainder, if any.
pub open spec fn chunk_seq(b: Seq<u8>, cs: int) -> Seq<Seq<u8>>
    recommends
        cs >= 1,
    decreases b.len(),
    when cs >= 1
{
    if b.len() == 0 {
        Seq::empty()
    } else if b.len() <= cs {
        seq![b]
    } else {
        seq![b.take(cs)] + chunk_seq(b.skip(cs), cs)
    }
}

/// The concatenation of a sequence of chunks.
pub open spec fn concat_chunks(cs: Seq<Seq<u8>>) -> Seq<u8>
    decreases cs.len(),
{
    if cs.len() == 0 {
        Seq::empty()
    } else {
        cs[0] + concat_chunks(cs.skip(1))
    }
}

/// Chunking loses nothing: the concatenation of the chunks of `b` is `b`.
pub proof fn lemma_chunk_seq_concat(b: Seq<u8>, cs: int)
    requires
        cs >= 1,
    ensures
        concat_chunks(chunk_seq(b, cs)) == b,
    decreases b.len(),
{
    if b.len() == 0 {
        assert(concat_chunks(chunk_seq(b, cs)) =~= b);
    } else if b.len() <= cs {
        let one = seq![b];
        assert(one.skip(1) =~= Seq::<Seq<u8>>::empty());
        assert(concat_chunks(one) == one[0] + concat_chunks(one.skip(1)));
        assert(one[0] == b);
        assert(b + Seq::<u8>::empty() =~= b);
    } else {
        lemma_chunk_seq_concat(b.skip(cs), cs);
        let whole = seq![b.take(cs)] + chunk_seq(b.skip(cs), cs);
        assert(whole[0] == b.take(cs));
        assert(whole.skip(1) =~= chunk_seq(b.skip(cs), cs));
        assert(concat_chunks(whole) == b.take(cs) + concat_chunks(chunk_seq(b.skip(cs), cs)));
        assert(b.take(cs) + b.skip(cs) =~= b);
    }
}

/// Every chunk is non-empty and at most the chunk size; every chunk but the
/// last is exactly the chunk size. The shorter final chunk is what signals
/// the end of the stream.
pub proof fn lemma_chunk_seq_sizes(b: Seq<u8>, cs: int)
    requires
        cs >= 1,
    ensures
        forall|i: int|
            0 <= i < chunk_seq(b, cs).len() ==> 1 <= (#[trigger] chunk_seq(b, cs)[i]).len() <= cs,
        forall|i: int|
            0 <= i < chunk_seq(b, cs).len() - 1 ==> (#[trigger] chunk_seq(b, cs)[i]).len() == cs,
    decreases b.len(),
{
    if b.len() > cs {
        lemma_chunk_seq_sizes(b.skip(cs), cs);
        let whole = chunk_seq(b, cs);
        let rest = chunk_seq(b.skip(cs), cs);
        assert(whole == seq![b.take(cs)] + rest);
        assert(whole[0] == b.take(cs));
        assert(forall|i: int| 1 <= i < whole.len() ==> whole[i] == rest[i - 1]);
        assert(rest.len() >= 1);
    }
}

/// The view of a vector of chunks.
pub open spec fn chunk_views(s: Seq<Vec<u8>>) -> Seq<Seq<u8>> {
    s.map_values(|v: Vec<u8>| v@)
}

/// Cut `blob` into chunks of `chunk_size` bytes, in order; the last chunk is
/// whatever remains.
#[verifier::loop_isolation(false)]
pub fn split_chunks(blob: &[u8], chunk_size: u64) -> (r: Vec<Vec<u8>>)
    requires
        chunk_size >= 1,
    ensures
        chunk_views(r@) == chunk_seq(blob@, chunk_size as int),
{
    let cs = chunk_size;
    let len: usize = blob.len();
    let mut out: Vec<Vec<u8>> = Vec::new();
    let mut off: usize = 0;
    proof {
        assert(blob@.skip(0) =~= blob@);
        assert(chunk_views(out@) =~= Seq::<Seq<u8>>::empty());
        assert(chunk_views(out@) + chunk_seq(blob@.skip(0), cs as int) =~= chunk_seq(
            blob@,
            cs as int,
        ));
    }
    while off < len
        invariant
            off <= len,
            chunk_views(out@) + chunk_seq(blob@.skip(off as int), cs as int) == chunk_seq(
                blob@,
                cs as int,
            ),
        decreases len - off,
    {
        let remaining: usize = len - off;
        let take: usize = if (remaining as u64) <= cs {
            remaining
        } else {
            proof {
                assert(cs < remaining as u64);
                assert(cs <= usize::MAX as u64);
            }
            cs as usize
        };
        let piece = slice_to_vec(slice_subrange(blob, off, off + take));
        out.push(piece);
        proof {
            let rest = blob@.skip(off as int);
            assert(piece@ =~= rest.take(take as int));
            if rest.len() <= cs as int {
                assert(take == remaining);
                assert(rest.take(take as int) =~= rest);
                assert(chunk_seq(rest, cs as int) == seq![rest]);
                assert(blob@.skip(off as int + take as int) =~= Seq::<u8>::empty());
            } else {
                assert(take == cs as usize);
                assert(chunk_seq(rest, cs as int) == seq![rest.take(cs as int)] + chunk_seq(
                    rest.skip(cs as int),
                    cs as int,
                ));
                assert(rest.skip(cs as int) =~= blob@.skip(off as int + take as int));
            }
            assert(chunk_views(out@) =~= chunk_views(out@.drop_last()) + seq![piece@]);
            assert(chunk_views(out@) + chunk_seq(blob@.skip(off as int + take as int), cs as int)
                =~= chunk_seq(blob@, cs as int));
        }
        off = off + take;
    }
    proof {
        assert(blob@.skip(len as int) =~= Seq::<u8>::empty());
        assert(chunk_views(out@) + chunk_seq(blob@.skip(len as int), cs as int) =~= chunk_views(
            out@,
        ));
    }
    out
}

} // verus!
