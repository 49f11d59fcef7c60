//! Seeds derived from coordinates through std's `DefaultHasher`.
use std::hash::DefaultHasher;
use std::hash::Hash;
use std::hash::Hasher;
use vstd::prelude::*;
use vstd::std_specs::hash::DefaultHasherAdditionalSpecFns;

verus! {

/// What `<i32 as Hash>::hash` hands to the hasher for the value `v`.
pub uninterp spec fn i32_hash_writes(v: i32) -> Seq<Seq<u8>>;

/// Relies on `<i32 as Hash>::hash`: the bytes it writes into the hasher
/// depend on the value alone.
#[verifier::external_body]
pub(crate) fn hash_i32(state: &mut DefaultHasher, v: i32)
    ensures
        final(state)@ == old(state)@ + i32_hash_writes(v),
{
    v.hash(state)
}

/// The seed of a chunk coordinate, as the hash of the triple `(x, y, z)`.
pub open spec fn spec_coord_seed(x: i32, y: i32, z: i32) -> u64 {
    DefaultHasher::spec_finish(i32_hash_writes(x) + i32_hash_writes(y) + i32_hash_writes(z))
}

/// Hashes a chunk coordinate the way the tuple `(x, y, z)` hashes, giving
/// the per-chunk random seed.
pub fn coord_seed(x: i32, y: i32, z: i32) -> (r: u64)
    ensures
        r == spec_coord_seed(x, y, z),
{
    let mut h = DefaultHasher::new();
    hash_i32(&mut h, x);
    hash_i32(&mut h, y);
    hash_i32(&mut h, z);
    assert(h@ =~= i32_hash_writes(x) + i32_hash_writes(y) + i32_hash_writes(z));
    h.finish()
}

} // verus!
