//! The bounded streaming digest: bytes arrive in chunks, and only those before
//! the meaningful-byte boundary reach the SHA-256 accumulator.

use vstd::prelude::*;

use crate::laws::lemma_chunked_input_is_prefix;
use crate::sha::{absorbed, context_finish, context_update, sha256_context, sha256_of};
use crate::sha::{DIGEST_INPUT_LIMIT, DIGEST_LEN};

verus! {

/// The first `max` bytes of `s`, or all of `s` when it is shorter.
pub open spec fn meaningful_prefix(s: Seq<u8>, max: nat) -> Seq<u8> {
    if s.len() <= max {
        s
    } else {
        s.take(max as int)
    }
}

/// The bytes that chunked reading feeds to the accumulator: `s` is read
/// `block_size` bytes at a time (less for the last chunk), whole chunks are
/// fed while they end at or before `max`, and the chunk that crosses `max`
/// is fed only up to it, after which nothing more is read.
pub open spec fn chunked_input(s: Seq<u8>, max: nat, block_size: nat) -> Seq<u8>
    decreases s.len(),
{
    if s.len() == 0 || block_size == 0 {
        Seq::empty()
    } else {
        let count = if s.len() < block_size { s.len() } else { block_size };
        if count > max {
            s.take(max as int)
        } else {
            s.take(count as int) + chunked_input(s.skip(count as int), (max - count) as nat, block_size)
        }
    }
}

/// A digest in progress over the first `max` bytes of a stream that is
/// handed over chunk by chunk.
pub struct BoundedDigest {
    ctx: ring::digest::Context,
    max: usize,
    hashed: usize,
    done: bool,
    seen: Ghost<Seq<u8>>,
}

impl BoundedDigest {
    /// The meaningful-byte count this digest was made with.
    pub closed spec fn spec_max(&self) -> nat {
        self.max as nat
    }

    /// Every byte handed to `feed` so far, in order.
    pub closed spec fn seen(&self) -> Seq<u8> {
        self.seen@
    }

    /// Whether the stream ended or the boundary was crossed.
    pub closed spec fn spec_done(&self) -> bool {
        self.done
    }

    pub closed spec fn wf(&self) -> bool {
        &&& absorbed(self.ctx) == meaningful_prefix(self.seen@, self.max as nat)
        &&& self.hashed == absorbed(self.ctx).len()
        &&& !self.done ==> self.seen@.len() <= self.max
    }

    /// Starts a digest over the first `max` bytes of a stream.
    pub fn new(max: usize) -> (r: Self)
        ensures
            r.wf(),
            r.spec_max() == max,
            r.seen() == Seq::<u8>::empty(),
            !r.spec_done(),
    {
        BoundedDigest {
            ctx: sha256_context(),
            max,
            hashed: 0,
            done: false,
            seen: Ghost(Seq::empty()),
        }
    }

    /// Hands over the next chunk of the stream; an empty chunk marks its end.
    /// Returns whether more chunks are wanted: false once the stream ended or
    /// the total read so far went past `max`.
    pub fn feed(&mut self, chunk: &[u8]) -> (more: bool)
        requires
            old(self).wf(),
            !old(self).spec_done(),
        ensures
            final(self).wf(),
            final(self).spec_max() == old(self).spec_max(),
            final(self).seen() == old(self).seen() + chunk@,
            final(self).spec_done() == (chunk@.len() == 0 || final(self).seen().len()
                > final(self).spec_max()),
            more == !final(self).spec_done(),
    {
        let count = chunk.len();
        if count == 0 {
            self.done = true;
            self.seen = Ghost(self.seen@ + chunk@);
            return false;
        }
        let room = self.max - self.hashed;
        let ghost prev = self.seen@;
        self.seen = Ghost(prev + chunk@);
        if count > room {
            context_update(&mut self.ctx, &chunk[0..room]);
            self.hashed = self.max;
            self.done = true;
            proof {
                assert((prev + chunk@).take(self.max as int) =~= prev + chunk@.subrange(0, room as int));
            }
            false
        } else {
            context_update(&mut self.ctx, chunk);
            self.hashed = self.hashed + count;
            true
        }
    }

    /// Whether the stream ended or the boundary was crossed.
    pub fn is_done(&self) -> (r: bool)
        ensures
            r == self.spec_done(),
    {
        self.done
    }

    /// The meaningful-byte count this digest was made with.
    pub fn max(&self) -> (r: usize)
        ensures
            r == self.spec_max(),
    {
        self.max
    }

    /// How many bytes have reached the accumulator: the bytes seen, up to `max`.
    pub fn bytes_hashed(&self) -> (r: usize)
        requires
            self.wf(),
        ensures
            r == meaningful_prefix(self.seen(), self.spec_max()).len(),
    {
        self.hashed
    }

    /// The SHA-256 digest of the meaningful bytes seen. SHA-256 takes fewer
    /// than `DIGEST_INPUT_LIMIT` bytes, which `bytes_hashed` lets a caller test.
    pub fn finish(self) -> (r: Vec<u8>)
        requires
            self.wf(),
            meaningful_prefix(self.seen(), self.spec_max()).len() < DIGEST_INPUT_LIMIT,
        ensures
            r@ == sha256_of(meaningful_prefix(self.seen(), self.spec_max())),
            r@.len() == DIGEST_LEN,
    {
        context_finish(self.ctx)
    }
}

/// How many bytes of an image of `file_size` bytes are padding after its
/// `bytes_used` meaningful bytes; `None` when the image is shorter than that.
pub fn padding_size(file_size: u64, bytes_used: u64) -> (r: Option<u64>)
    ensures
        r == (if bytes_used <= file_size {
            Some((file_size - bytes_used) as u64)
        } else {
            None
        }),
{
    if bytes_used <= file_size {
        Some(file_size - bytes_used)
    } else {
        None
    }
}

/// The SHA-256 digest of the first `max` bytes of `source` (all of it when it
/// is shorter), read `block_size` bytes at a time.
pub fn sha256_digest(source: &[u8], max: usize, block_size: usize) -> (r: Vec<u8>)
    requires
        block_size > 0,
        meaningful_prefix(source@, max as nat).len() < DIGEST_INPUT_LIMIT,
    ensures
        r@ == sha256_of(meaningful_prefix(source@, max as nat)),
        r@ == sha256_of(chunked_input(source@, max as nat, block_size as nat)),
        r@.len() == DIGEST_LEN,
{
    let mut acc = BoundedDigest::new(max);
    let mut pos: usize = 0;
    loop
        invariant_except_break
            !acc.spec_done(),
        invariant
            block_size > 0,
            acc.wf(),
            acc.spec_max() == max,
            pos <= source@.len(),
            acc.seen() == source@.take(pos as int),
        ensures
            acc.spec_done(),
            pos == source@.len() || pos > max,
        decreases source@.len() - pos,
    {
        let end = if source.len() - pos < block_size {
            source.len()
        } else {
            pos + block_size
        };
        let ghost before = acc.seen();
        let chunk = &source[pos..end];
        let more = acc.feed(chunk);
        proof {
            assert(before + source@.subrange(pos as int, end as int) =~= source@.take(end as int));
            assert(acc.seen().len() == end);
            assert(chunk@.len() == end - pos);
        }
        pos = end;
        if !more {
            break;
        }
    }
    proof {
        if pos == source@.len() {
            assert(source@.take(pos as int) =~= source@);
        } else {
            assert(source@.take(pos as int).take(max as int) =~= source@.take(max as int));
        }
        lemma_chunked_input_is_prefix(source@, max as nat, block_size as nat);
    }
    acc.finish()
}

} // verus!
