//! Blake2-256 hashing as the runtime does it.

use vstd::prelude::*;

use sp_runtime::traits::BlakeTwo256;
use sp_runtime::traits::Hash as RuntimeHash;

verus! {

/// The 32-byte Blake2b-256 digest of `data`.
pub uninterp spec fn blake2_256(data: Seq<u8>) -> Seq<u8>;

/// The `count` least significant bytes of `n`, least significant first.
pub open spec fn le_bytes(n: nat, count: nat) -> Seq<u8>
    decreases count,
{
    if count == 0 {
        Seq::empty()
    } else {
        seq![(n % 256) as u8] + le_bytes(n / 256, (count - 1) as nat)
    }
}

/// The SCALE encoding of a `u128`: its sixteen bytes in little-endian order.
pub open spec fn scale_u128(value: u128) -> Seq<u8> {
    le_bytes(value as nat, 16)
}

/// Hashes a byte string with `<BlakeTwo256 as sp_runtime::traits::Hash>::hash`.
///
/// Trusted: the result is the Blake2b-256 digest of `data`, named by
/// [`blake2_256`]; nothing more is claimed of its bytes.
#[verifier::external_body]
pub(crate) fn hash_bytes(data: &[u8]) -> (digest: [u8; 32])
    ensures
        digest@ == blake2_256(data@),
{
    <BlakeTwo256 as RuntimeHash>::hash(data).0
}

/// Hashes a `u128` with `<BlakeTwo256 as sp_runtime::traits::Hash>::hash_of`.
///
/// Trusted: `hash_of` hashes the SCALE encoding of its argument, which for a
/// `u128` is its little-endian bytes, so the result is the digest of those
/// sixteen bytes.
#[verifier::external_body]
pub(crate) fn hash_of_u128(value: u128) -> (digest: [u8; 32])
    ensures
        digest@ == blake2_256(scale_u128(value)),
{
    <BlakeTwo256 as RuntimeHash>::hash_of(&value).0
}

} // verus!
