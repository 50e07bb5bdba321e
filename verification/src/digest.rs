//! SHA-256, computed piece by piece.

use vstd::prelude::*;

verus! {

/// The state of a digest that `ring` computes piece by piece.
#[verifier::external_type_specification]
#[verifier::external_body]
pub struct ExContext(ring::digest::Context);

/// The SHA-256 digest of a byte string, as `ring` computes it.
pub uninterp spec fn sha256(data: Seq<u8>) -> Seq<u8>;

/// The bytes that a digest context has taken in since it was made, in the
/// order in which they came.
pub uninterp spec fn absorbed(context: ring::digest::Context) -> Seq<u8>;

/// The longest input that `ring` digests: its length in bits must fit in 64
/// bits.
pub const MAX_DIGEST_INPUT: u64 = 0x1fff_ffff_ffff_ffff;

/// Calls `ring::digest::Context::new` for SHA-256. A new context has taken
/// in nothing.
#[verifier::external_body]
pub(crate) fn context_new() -> (context: ring::digest::Context)
    ensures
        absorbed(context) == Seq::<u8>::empty(),
{
    ring::digest::Context::new(&ring::digest::SHA256)
}

/// Calls `ring::digest::Context::update`, which takes in all of `data`
/// after what the context took in before.
#[verifier::external_body]
pub(crate) fn context_update(context: &mut ring::digest::Context, data: &[u8])
    ensures
        absorbed(*final(context)) == absorbed(*old(context)) + data@,
{
    context.update(data)
}

/// Calls `Clone::clone` on a `ring::digest::Context`. The copy has taken in
/// what the context has that it was made from.
#[verifier::external_body]
pub(crate) fn context_clone(context: &ring::digest::Context) -> (copy: ring::digest::Context)
    ensures
        absorbed(copy) == absorbed(*context),
{
    context.clone()
}

/// Calls `ring::digest::Context::finish` and copies the digest out. The
/// result is the SHA-256 digest of what the context took in, 32 bytes long.
/// `finish` panics where that input is longer than `ring` digests, so such
/// a context is not accepted.
#[verifier::external_body]
pub(crate) fn context_finish(context: ring::digest::Context) -> (digest: Vec<u8>)
    requires
        absorbed(context).len() <= MAX_DIGEST_INPUT,
    ensures
        digest@ == sha256(absorbed(context)),
        digest@.len() == 32,
{
    context.finish().as_ref().to_vec()
}

} // verus!
