//! Decorations placed at world positions, drawn from a random generator
//! seeded by the position.
use crate::seed::{hash_i32, i32_hash_writes};
use rand::rngs::StdRng;
use rand::{Rng, SeedableRng};
use std::hash::DefaultHasher;
use std::hash::Hasher;
use vstd::prelude::*;
use vstd::std_specs::hash::DefaultHasherAdditionalSpecFns;

verus! {

/// `rand::rngs::StdRng`, held opaquely.
#[verifier::external_type_specification]
#[verifier::external_body]
pub struct ExStdRng(StdRng);

/// Relies on `rand::SeedableRng::seed_from_u64` for `StdRng`: a generator
/// determined by the seed.
#[verifier::external_body]
fn rng_from_seed(seed: u64) -> StdRng {
    StdRng::seed_from_u64(seed)
}

/// Relies on `rand::Rng::random_range` over the inclusive range `lo..=hi`:
/// a value in the range, which must not be empty (it panics on an empty one).
#[verifier::external_body]
fn random_between(rng: &mut StdRng, lo: u32, hi: u32) -> (r: u32)
    requires
        lo <= hi,
    ensures
        lo <= r <= hi,
{
    rng.random_range(lo..=hi)
}

/// A position: a chunk and a voxel in the world.
#[derive(Clone, Copy, Debug, PartialEq, Eq, Hash)]
pub struct WorldPos {
    pub chunk_x: i32,
    pub chunk_y: i32,
    pub chunk_z: i32,
    pub x: i32,
    pub y: i32,
    pub z: i32,
}

/// What hashing the fields of `p`, in order, writes into the hasher.
pub open spec fn pos_hash_writes(p: WorldPos) -> Seq<Seq<u8>> {
    i32_hash_writes(p.chunk_x) + i32_hash_writes(p.chunk_y) + i32_hash_writes(p.chunk_z)
        + i32_hash_writes(p.x) + i32_hash_writes(p.y) + i32_hash_writes(p.z)
}

/// The seed of a position: its hash, as its derived `Hash` computes it
/// (the fields in order).
pub fn locus_into_seed(locus: &WorldPos) -> (r: u64)
    ensures
        r == DefaultHasher::spec_finish(pos_hash_writes(*locus)),
{
    let mut h = DefaultHasher::new();
    hash_i32(&mut h, locus.chunk_x);
    hash_i32(&mut h, locus.chunk_y);
    hash_i32(&mut h, locus.chunk_z);
    hash_i32(&mut h, locus.x);
    hash_i32(&mut h, locus.y);
    hash_i32(&mut h, locus.z);
    assert(h@ =~= pos_hash_writes(*locus));
    h.finish()
}

/// The random generator of a position.
pub fn locus_into_rng(locus: &WorldPos) -> StdRng {
    rng_from_seed(locus_into_seed(locus))
}

/// Shortest and tallest tree trunk.
pub const TREE_MIN_HEIGHT: u32 = 2;

pub const TREE_MAX_HEIGHT: u32 = 8;

/// A tree standing at a voxel.
#[derive(Clone, Copy, Debug, PartialEq, Eq)]
pub struct Tree {
    pub tree_x: i32,
    pub tree_y: i32,
    pub tree_z: i32,
    pub tree_height: u32,
}

impl Tree {
    /// A tree at the voxel of `locus`, with a trunk height drawn from `rng`.
    pub fn from_rng(rng: &mut StdRng, locus: &WorldPos) -> (r: Tree)
        ensures
            r.tree_x == locus.x,
            r.tree_y == locus.y,
            r.tree_z == locus.z,
            TREE_MIN_HEIGHT <= r.tree_height <= TREE_MAX_HEIGHT,
    {
        Tree {
            tree_x: locus.x,
            tree_y: locus.y,
            tree_z: locus.z,
            tree_height: random_between(rng, TREE_MIN_HEIGHT, TREE_MAX_HEIGHT),
        }
    }

    /// The tree of a position, drawn from the position's own generator.
    pub fn from_locus(locus: WorldPos) -> (r: Tree)
        ensures
            r.tree_x == locus.x,
            r.tree_y == locus.y,
            r.tree_z == locus.z,
            TREE_MIN_HEIGHT <= r.tree_height <= TREE_MAX_HEIGHT,
    {
        let mut rng = locus_into_rng(&locus);
        Tree::from_rng(&mut rng, &locus)
    }
}

/// The decorations of one chunk.
pub struct ChunkDecorations {
    pub trees: Vec<Tree>,
}

} // verus!
