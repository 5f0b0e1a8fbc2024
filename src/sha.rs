//! The SHA-256 accumulator, taken from `ring`.
//!
//! A `ring::digest::Context` is opaque here: what matters of it is the byte
//! sequence it has absorbed so far, named `absorbed`, and the digest of a byte
//! sequence, named `sha256_of`.

use vstd::prelude::*;

verus! {

/// Bytes of input at which `ring` refuses to finish a SHA-256 digest
/// (the message length must fit in 64 bits of bit count).
pub const DIGEST_INPUT_LIMIT: u64 = 0x2000_0000_0000_0000;

/// Byte length of a SHA-256 digest.
pub const DIGEST_LEN: usize = 32;

/// The SHA-256 digest of a byte sequence.
pub uninterp spec fn sha256_of(data: Seq<u8>) -> Seq<u8>;

/// The bytes a SHA-256 context has absorbed since it was created, in order.
pub uninterp spec fn absorbed(ctx: ring::digest::Context) -> Seq<u8>;

#[verifier::external_type_specification]
#[verifier::external_body]
pub struct ExContext(ring::digest::Context);

/// Relies on `ring::digest::Context::new(&SHA256)`: a fresh context has
/// absorbed nothing.
#[verifier::external_body]
pub(crate) fn sha256_context() -> (r: ring::digest::Context)
    ensures
        absorbed(r) == Seq::<u8>::empty(),
{
    ring::digest::Context::new(&ring::digest::SHA256)
}

/// Relies on `ring::digest::Context::update`: the context absorbs all of
/// `data`, after what it had absorbed before.
#[verifier::external_body]
pub(crate) fn context_update(ctx: &mut ring::digest::Context, data: &[u8])
    ensures
        absorbed(*final(ctx)) == absorbed(*old(ctx)) + data@,
{
    ctx.update(data)
}

/// Relies on `ring::digest::Context::finish` and `Digest::as_ref`: the
/// SHA-256 digest of what the context absorbed, 32 bytes long. `finish`
/// panics once the input reaches `DIGEST_INPUT_LIMIT` bytes.
#[verifier::external_body]
pub(crate) fn context_finish(ctx: ring::digest::Context) -> (r: Vec<u8>)
    requires
        absorbed(ctx).len() < DIGEST_INPUT_LIMIT,
    ensures
        r@ == sha256_of(absorbed(ctx)),
        r@.len() == DIGEST_LEN,
{
    ctx.finish().as_ref().to_vec()
}

} // verus!
