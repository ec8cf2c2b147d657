//! The body of a part: the chunks that arrive are joined in one buffer, as
//! long as the result stays within a limit.

use vstd::prelude::*;
use crate::form::chunks_view;

verus! {

/// Appends `chunk` to `buffer`.
///
/// Calls `bytes::BufMut::put` on a `Vec<u8>` with a byte slice as the
/// source. The contract claims what that impl does: it reserves room and
/// extends the vector by the bytes of the slice, in order, leaving what the
/// vector held in front of them. The vector cannot grow beyond `isize::MAX`
/// bytes, which the precondition keeps it from being asked to.
#[verifier::external_body]
fn put_chunk(buffer: &mut Vec<u8>, chunk: &[u8])
    requires
        old(buffer)@.len() + chunk@.len() <= isize::MAX,
    ensures
        final(buffer)@ == old(buffer)@ + chunk@,
{
    bytes::BufMut::put(buffer, chunk)
}

/// The first `n` chunks joined.
pub open spec fn joined_prefix(chunks: Seq<Seq<u8>>, n: int) -> Seq<u8> {
    chunks.subrange(0, n).flatten()
}

/// Joining one chunk more appends that chunk.
pub proof fn lemma_joined_prefix_step(chunks: Seq<Seq<u8>>, n: int)
    requires
        0 <= n < chunks.len(),
    ensures
        joined_prefix(chunks, n + 1) == joined_prefix(chunks, n) + chunks[n],
        joined_prefix(chunks, chunks.len() as int) == chunks.flatten(),
        joined_prefix(chunks, 0) == Seq::<u8>::empty(),
{
    let shorter = chunks.subrange(0, n);
    assert(chunks.subrange(0, n + 1) =~= shorter.push(chunks[n]));
    shorter.lemma_flatten_push(chunks[n]);
    assert(chunks.subrange(0, chunks.len() as int) =~= chunks);
}

/// The chunks joined are at least as long as any number of the first of
/// them joined.
pub proof fn lemma_joined_prefix_len(chunks: Seq<Seq<u8>>, n: int)
    requires
        0 <= n <= chunks.len(),
    ensures
        joined_prefix(chunks, n).len() <= chunks.flatten().len(),
    decreases chunks.len() - n,
{
    if n < chunks.len() {
        lemma_joined_prefix_step(chunks, n);
        lemma_joined_prefix_len(chunks, n + 1);
    } else {
        assert(chunks.subrange(0, n) =~= chunks);
    }
}

/// Joins the chunks of a body in the order in which they arrived. The
/// result is `None` exactly where the body is longer than `limit`.
pub fn assemble(chunks: &Vec<Vec<u8>>, limit: usize) -> (body: Option<Vec<u8>>)
    requires
        limit <= isize::MAX,
    ensures
        match body {
            Some(bytes) => bytes@ == chunks_view(chunks@).flatten() && bytes@.len() <= limit,
            None => chunks_view(chunks@).flatten().len() > limit,
        },
{
    let ghost all = chunks_view(chunks@);
    let mut buffer: Vec<u8> = Vec::new();
    let mut i: usize = 0;
    while i < chunks.len()
        invariant
            i <= chunks.len(),
            limit <= isize::MAX,
            all == chunks_view(chunks@),
            buffer@ == joined_prefix(all, i as int),
            buffer@.len() <= limit,
        decreases chunks.len() - i,
    {
        let chunk = &chunks[i];
        proof {
            lemma_joined_prefix_step(all, i as int);
            lemma_joined_prefix_len(all, i + 1);
        }
        if chunk.len() > limit - buffer.len() {
            return None;
        }
        put_chunk(&mut buffer, chunk.as_slice());
        i += 1;
    }
    proof {
        assert(all.subrange(0, i as int) =~= all);
    }
    Some(buffer)
}

} // verus!
