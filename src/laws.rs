//! What holds of the bytes that chunked reading feeds to the digest.

use vstd::prelude::*;

use crate::bounded::{chunked_input, meaningful_prefix};
use crate::sha::sha256_of;

verus! {

/// Chunked reading with any positive block size feeds exactly the meaningful
/// prefix of the source.
pub proof fn lemma_chunked_input_is_prefix(s: Seq<u8>, max: nat, block_size: nat)
    requires
        block_size > 0,
    ensures
        chunked_input(s, max, block_size) == meaningful_prefix(s, max),
    decreases s.len(),
{
    if s.len() == 0 {
        assert(meaningful_prefix(s, max) =~= Seq::<u8>::empty());
    } else {
        let count = if s.len() < block_size { s.len() } else { block_size };
        if count <= max {
            let rest = s.skip(count as int);
            let rmax = (max - count) as nat;
            lemma_chunked_input_is_prefix(rest, rmax, block_size);
            if s.len() <= max {
                assert(s.take(count as int) + rest =~= s);
            } else {
                assert(s.take(count as int) + rest.take(rmax as int) =~= s.take(max as int));
            }
        }
    }
}

/// When the source holds at least `max` bytes, the digest covers exactly its
/// first `max` bytes, whatever the block size.
pub proof fn lemma_exact_truncation(s: Seq<u8>, max: nat, block_size: nat)
    requires
        block_size > 0,
        max <= s.len(),
    ensures
        sha256_of(chunked_input(s, max, block_size)) == sha256_of(s.take(max as int)),
{
    lemma_chunked_input_is_prefix(s, max, block_size);
    if s.len() == max {
        assert(s.take(max as int) =~= s);
    }
}

/// For a fixed source and boundary, every positive block size gives the
/// same digest.
pub proof fn lemma_chunk_size_invariance(s: Seq<u8>, max: nat, block_a: nat, block_b: nat)
    requires
        block_a > 0,
        block_b > 0,
    ensures
        chunked_input(s, max, block_a) == chunked_input(s, max, block_b),
        sha256_of(chunked_input(s, max, block_a)) == sha256_of(chunked_input(s, max, block_b)),
{
    lemma_chunked_input_is_prefix(s, max, block_a);
    lemma_chunked_input_is_prefix(s, max, block_b);
}

/// When the boundary lies beyond the end of the source, the digest covers the
/// whole source.
pub proof fn lemma_short_source(s: Seq<u8>, max: nat, block_size: nat)
    requires
        block_size > 0,
        max > s.len(),
    ensures
        chunked_input(s, max, block_size) == s,
        sha256_of(chunked_input(s, max, block_size)) == sha256_of(s),
{
    lemma_chunked_input_is_prefix(s, max, block_size);
}

/// With a boundary of zero the digest is that of the empty input.
pub proof fn lemma_zero_boundary(s: Seq<u8>, block_size: nat)
    requires
        block_size > 0,
    ensures
        chunked_input(s, 0, block_size) == Seq::<u8>::empty(),
        sha256_of(chunked_input(s, 0, block_size)) == sha256_of(Seq::<u8>::empty()),
{
    lemma_chunked_input_is_prefix(s, 0, block_size);
    assert(meaningful_prefix(s, 0) =~= Seq::<u8>::empty());
}

/// A boundary on a block edge inside the source, and the same boundary plus
/// one, feed the same bytes but for one more byte at the end: the source's
/// byte at that edge.
pub proof fn lemma_boundary_alignment(s: Seq<u8>, blocks: nat, block_size: nat)
    requires
        block_size > 0,
        blocks * block_size < s.len(),
    ensures
        chunked_input(s, blocks * block_size + 1, block_size) == chunked_input(
            s,
            blocks * block_size,
            block_size,
        ).push(s[(blocks * block_size) as int]),
{
    let edge = blocks * block_size;
    lemma_chunked_input_is_prefix(s, edge, block_size);
    lemma_chunked_input_is_prefix(s, edge + 1, block_size);
    if edge + 1 == s.len() {
        assert(s =~= s.take(edge as int).push(s[edge as int]));
    } else {
        assert(s.take((edge + 1) as int) =~= s.take(edge as int).push(s[edge as int]));
    }
}

} // verus!
