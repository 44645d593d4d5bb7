//! SHA-256, computed by the `sha2` crate.

use vstd::prelude::*;

use sha2::Digest;

verus! {

/// A SHA-256 digest.
pub type Digest32 = [u8; 32];

/// The longest message SHA-256 can take, in bytes: its length in bits is
/// counted in 64 bits.
pub const MAX_MESSAGE: u64 = 0x1fff_ffff_ffff_ffff;

/// The SHA-256 hasher of the `sha2` crate.
#[verifier::external_type_specification]
#[verifier::external_body]
pub struct ExSha256(sha2::Sha256);

/// The bytes a hasher has taken in so far, in order.
pub uninterp spec fn absorbed(hasher: sha2::Sha256) -> Seq<u8>;

/// The SHA-256 digest of a message: what `Digest::finalize` of `sha2` returns
/// once the message has been taken in.
pub uninterp spec fn sha256(message: Seq<u8>) -> [u8; 32];

/// Calls `Digest::new` of `sha2`: the hasher has taken in nothing.
#[verifier::external_body]
pub(crate) fn hasher_new() -> (hasher: sha2::Sha256)
    ensures
        absorbed(hasher) == Seq::<u8>::empty(),
{
    sha2::Sha256::new()
}

/// Calls `Digest::update` of `sha2`: the data is taken in after what came
/// before it, so that how a message is cut into pieces makes no difference.
#[verifier::external_body]
pub(crate) fn hasher_update(hasher: &mut sha2::Sha256, data: &[u8])
    requires
        absorbed(*old(hasher)).len() + data@.len() <= MAX_MESSAGE,
    ensures
        absorbed(*final(hasher)) == absorbed(*old(hasher)) + data@,
{
    hasher.update(data);
}

/// Calls `Digest::finalize` of `sha2`: the digest depends on the bytes taken in
/// and on nothing else.
#[verifier::external_body]
pub(crate) fn hasher_finalize(hasher: sha2::Sha256) -> (digest: Digest32)
    requires
        absorbed(hasher).len() <= MAX_MESSAGE,
    ensures
        digest == sha256(absorbed(hasher)),
{
    hasher.finalize().into()
}

} // verus!
