//! World, chunk and local coordinates.
use vstd::prelude::*;

verus! {

/// Edge length of a cubic chunk, in voxels.
pub const CHUNK_SIZE_X: i32 = 32;

/// Number of voxels in one chunk.
pub const CHUNK_SIZE: i32 = CHUNK_SIZE_X * CHUNK_SIZE_X * CHUNK_SIZE_X;

/// Number of columns (x, z pairs) in one chunk.
pub const CHUNK_COLUMNS: usize = 1024;

/// Chunk coordinate holding world coordinate `x` (floor division).
pub open spec fn chunk_of(x: int) -> int {
    x / (CHUNK_SIZE_X as int)
}

/// Offset of world coordinate `x` inside its chunk (Euclidean remainder).
pub open spec fn local_of(x: int) -> int {
    x % (CHUNK_SIZE_X as int)
}

/// Chunk coordinate along one axis of a world coordinate.
pub fn chunk_coord(x: i32) -> (r: i32)
    ensures
        r as int == chunk_of(x as int),
{
    match x.checked_div_euclid(CHUNK_SIZE_X) {
        Some(q) => q,
        None => 0,
    }
}

/// Offset along one axis of a world coordinate inside its chunk.
pub fn local_coord(x: i32) -> (r: usize)
    ensures
        r as int == local_of(x as int),
        r < CHUNK_SIZE_X as usize,
{
    match x.checked_rem_euclid(CHUNK_SIZE_X) {
        Some(m) => m as usize,
        None => 0,
    }
}

/// Splitting a world coordinate into chunk and local parts loses nothing:
/// the local part lies in `[0, N)` and `chunk * N + local` gives back `x`.
pub proof fn lemma_chunk_local_round_trip(x: int)
    ensures
        0 <= local_of(x) < CHUNK_SIZE_X as int,
        chunk_of(x) * (CHUNK_SIZE_X as int) + local_of(x) == x,
{
    vstd::arithmetic::div_mod::lemma_fundamental_div_mod(x, CHUNK_SIZE_X as int);
    vstd::arithmetic::div_mod::lemma_mod_bound(x, CHUNK_SIZE_X as int);
}

/// Key of chunk coordinate `(x, y, z)` in the chunk map.
pub open spec fn spec_chunk_key(x: int, y: int, z: int) -> int {
    x * 0x1_0000_0000_0000_0000 + y * 0x1_0000_0000 + z
}

/// Packs a chunk coordinate into one integer key.
pub fn chunk_key(x: i32, y: i32, z: i32) -> (r: i128)
    ensures
        r as int == spec_chunk_key(x as int, y as int, z as int),
{
    (x as i128) * 0x1_0000_0000_0000_0000i128 + (y as i128) * 0x1_0000_0000i128 + (z as i128)
}

proof fn lemma_split_key(hi1: int, lo1: int, hi2: int, lo2: int, base: int, unit: int)
    requires
        unit > 0,
        base <= lo1 < base + unit,
        base <= lo2 < base + unit,
        hi1 * unit + lo1 == hi2 * unit + lo2,
    ensures
        hi1 == hi2,
        lo1 == lo2,
{
    if hi1 > hi2 {
        assert((hi1 - hi2) * unit >= unit) by (nonlinear_arith)
            requires
                hi1 - hi2 >= 1,
                unit > 0,
        ;
        assert(hi1 * unit - hi2 * unit == (hi1 - hi2) * unit) by (nonlinear_arith);
    } else if hi2 > hi1 {
        assert((hi2 - hi1) * unit >= unit) by (nonlinear_arith)
            requires
                hi2 - hi1 >= 1,
                unit > 0,
        ;
        assert(hi2 * unit - hi1 * unit == (hi2 - hi1) * unit) by (nonlinear_arith);
    }
}

/// Distinct chunk coordinates have distinct keys.
pub proof fn lemma_chunk_key_injective(x1: i32, y1: i32, z1: i32, x2: i32, y2: i32, z2: i32)
    requires
        spec_chunk_key(x1 as int, y1 as int, z1 as int) == spec_chunk_key(x2 as int, y2 as int, z2 as int),
    ensures
        x1 == x2,
        y1 == y2,
        z1 == z2,
{
    let lo1 = y1 as int * 0x1_0000_0000 + z1 as int;
    let lo2 = y2 as int * 0x1_0000_0000 + z2 as int;
    assert(-0x8000_0000_8000_0000 <= lo1 < -0x8000_0000_8000_0000 + 0x1_0000_0000_0000_0000) by (nonlinear_arith)
        requires
            lo1 == y1 as int * 0x1_0000_0000 + z1 as int,
            -0x8000_0000 <= y1 as int <= 0x7fff_ffff,
            -0x8000_0000 <= z1 as int <= 0x7fff_ffff,
    ;
    assert(-0x8000_0000_8000_0000 <= lo2 < -0x8000_0000_8000_0000 + 0x1_0000_0000_0000_0000) by (nonlinear_arith)
        requires
            lo2 == y2 as int * 0x1_0000_0000 + z2 as int,
            -0x8000_0000 <= y2 as int <= 0x7fff_ffff,
            -0x8000_0000 <= z2 as int <= 0x7fff_ffff,
    ;
    lemma_split_key(x1 as int, lo1, x2 as int, lo2, -0x8000_0000_8000_0000, 0x1_0000_0000_0000_0000);
    lemma_split_key(y1 as int, z1 as int, y2 as int, z2 as int, -0x8000_0000, 0x1_0000_0000);
}

} // verus!
