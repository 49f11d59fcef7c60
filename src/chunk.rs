//! One chunk: its cached height field, its materialized voxels, and the
//! staged generation that takes it from empty to noised to formed.
use crate::coords::{CHUNK_COLUMNS, CHUNK_SIZE, CHUNK_SIZE_X};
use crate::seed::{coord_seed, spec_coord_seed};
use vstd::prelude::*;

verus! {

/// Global y at and below which empty space is water.
pub const SEA_LEVEL: i64 = 0;

/// Block id of air; also what a read outside known data returns.
pub const AIR: u8 = 0;

pub const STONE: u8 = 1;

pub const DIRT: u8 = 2;

pub const GRASS: u8 = 3;

pub const WATER: u8 = 4;

/// The pluggable height-field function: for a chunk coordinate it gives
/// the target terrain height of each column, column `x + z * N` at index
/// `x + z * N`. Implementations are expected to give the same heights for
/// the same coordinate every time.
pub trait TerrainShape {
    fn target_heights(&self, x: i32, y: i32, z: i32) -> (r: Vec<i32>)
        ensures
            r@.len() == CHUNK_COLUMNS,
    ;
}

/// Flat terrain: every column has the same target height.
pub struct FlatTerrain {
    pub height: i32,
}

impl TerrainShape for FlatTerrain {
    fn target_heights(&self, x: i32, y: i32, z: i32) -> (r: Vec<i32>) {
        vec![self.height; CHUNK_COLUMNS]
    }
}

/// Index of local voxel `(x, y, z)` in a chunk's flat block array.
pub open spec fn voxel_index(x: int, y: int, z: int) -> int {
    x + y * (CHUNK_SIZE_X as int) + z * (CHUNK_SIZE_X as int) * (CHUNK_SIZE_X as int)
}

/// Local x of flat voxel index `i`.
pub open spec fn index_x(i: int) -> int {
    i % (CHUNK_SIZE_X as int)
}

/// Local y of flat voxel index `i`.
pub open spec fn index_y(i: int) -> int {
    (i / (CHUNK_SIZE_X as int)) % (CHUNK_SIZE_X as int)
}

/// Local z of flat voxel index `i`.
pub open spec fn index_z(i: int) -> int {
    i / ((CHUNK_SIZE_X as int) * (CHUNK_SIZE_X as int))
}

/// Column `x + z * N` of flat voxel index `i`.
pub open spec fn index_column(i: int) -> int {
    index_x(i) + index_z(i) * (CHUNK_SIZE_X as int)
}

pub proof fn lemma_voxel_index_decode(x: int, y: int, z: int)
    requires
        0 <= x < 32,
        0 <= y < 32,
        0 <= z < 32,
    ensures
        0 <= voxel_index(x, y, z) < CHUNK_SIZE as int,
        index_x(voxel_index(x, y, z)) == x,
        index_y(voxel_index(x, y, z)) == y,
        index_z(voxel_index(x, y, z)) == z,
        index_column(voxel_index(x, y, z)) == x + z * 32,
{
    let i = voxel_index(x, y, z);
    assert(i == x + 32 * (y + 32 * z));
    vstd::arithmetic::div_mod::lemma_fundamental_div_mod_converse(i, 32, y + 32 * z, x);
    vstd::arithmetic::div_mod::lemma_fundamental_div_mod_converse(i / 32, 32, z, y);
    vstd::arithmetic::div_mod::lemma_div_denominator(i, 32, 32);
    assert(0 <= i < 32768) by (nonlinear_arith)
        requires
            0 <= x < 32,
            0 <= y < 32,
            0 <= z < 32,
            i == x + 32 * (y + 32 * z),
    ;
}

/// The block that generation puts at global height `gy` of a column whose
/// target height is `target`: stone up to the target, two layers of dirt,
/// then a grass surface (dirt when under water), then water up to sea
/// level and air above.
pub open spec fn terrain_block(target: int, gy: int) -> u8 {
    if gy <= target {
        STONE
    } else if gy <= target + 2 {
        DIRT
    } else if gy == target + 3 {
        if gy >= SEA_LEVEL {
            GRASS
        } else {
            DIRT
        }
    } else if gy <= SEA_LEVEL {
        WATER
    } else {
        AIR
    }
}

/// Local y of the grass surface of a column with target height `target`
/// in the chunk at chunk height `cy`, when it lies in that chunk above sea
/// level.
pub open spec fn surface_y(target: int, cy: int) -> Option<i32> {
    let gy = target + 3;
    let base = cy * (CHUNK_SIZE_X as int);
    if gy > SEA_LEVEL && base <= gy < base + CHUNK_SIZE_X as int {
        Some((gy - base) as i32)
    } else {
        None
    }
}

/// The voxels generation gives a chunk at chunk height `cy` with the given
/// column heights.
pub open spec fn generated_blocks(heights: Seq<i32>, cy: int) -> Seq<u8> {
    Seq::new(
        CHUNK_SIZE as nat,
        |i: int|
            terrain_block(
                heights[index_column(i)] as int,
                cy * (CHUNK_SIZE_X as int) + index_y(i),
            ),
    )
}

/// The surface heights generation records for a chunk at chunk height `cy`.
pub open spec fn generated_surface(heights: Seq<i32>, cy: int) -> Seq<Option<i32>> {
    Seq::new(CHUNK_COLUMNS as nat, |c: int| surface_y(heights[c] as int, cy))
}

/// The block of a column with target height `target` at global height `gy`.
fn column_block(target: i32, gy: i64) -> (r: u8)
    ensures
        r == terrain_block(target as int, gy as int),
{
    let t = target as i64;
    if gy <= t {
        STONE
    } else if gy <= t + 2 {
        DIRT
    } else if gy == t + 3 {
        if gy >= SEA_LEVEL {
            GRASS
        } else {
            DIRT
        }
    } else if gy <= SEA_LEVEL {
        WATER
    } else {
        AIR
    }
}

/// The cached height field of a chunk: the target height of each column
/// and the seed of the chunk's random generator.
pub struct ChunkNoises {
    pub target_height: Vec<i32>,
    pub seed: u64,
}

impl ChunkNoises {
    /// A height field for chunk `(x, y, z)`: one height per column and the
    /// seed of that coordinate.
    pub open spec fn wf(&self, x: i32, y: i32, z: i32) -> bool {
        &&& self.target_height@.len() == CHUNK_COLUMNS
        &&& self.seed == spec_coord_seed(x, y, z)
    }

    /// Samples the height field of chunk `(x, y, z)`.
    pub fn new<T: TerrainShape>(terrain: &T, x: i32, y: i32, z: i32) -> (r: ChunkNoises)
        ensures
            r.wf(x, y, z),
    {
        ChunkNoises { target_height: terrain.target_heights(x, y, z), seed: coord_seed(x, y, z) }
    }
}

/// The materialized voxels of a chunk and the local height of the grass
/// surface of each column, where it lies in the chunk above sea level.
pub struct ChunkData {
    pub block_ids: Vec<u8>,
    pub height_map: Vec<Option<i32>>,
}

impl ChunkData {
    pub open spec fn wf(&self) -> bool {
        &&& self.block_ids@.len() == CHUNK_SIZE
        &&& self.height_map@.len() == CHUNK_COLUMNS
    }

    /// Block at local `(x, y, z)`.
    pub open spec fn spec_block(&self, x: int, y: int, z: int) -> u8 {
        self.block_ids@[voxel_index(x, y, z)]
    }

    /// Generates the voxels of the chunk at `(basis_x, basis_y, basis_z)`
    /// from its height field.
    pub fn new(basis_x: i32, basis_y: i32, basis_z: i32, noises: &ChunkNoises) -> (r: ChunkData)
        requires
            noises.target_height@.len() == CHUNK_COLUMNS,
        ensures
            r.wf(),
            r.block_ids@ == generated_blocks(noises.target_height@, basis_y as int),
            r.height_map@ == generated_surface(noises.target_height@, basis_y as int),
    {
        let heights = &noises.target_height;
        let ghost h = heights@;
        let base_y: i64 = basis_y as i64 * 32;
        let mut block_ids: Vec<u8> = Vec::with_capacity(CHUNK_SIZE as usize);
        let mut i: usize = 0;
        while i < CHUNK_SIZE as usize
            invariant
                h == heights@,
                h.len() == CHUNK_COLUMNS,
                base_y == basis_y as int * 32,
                i <= CHUNK_SIZE,
                block_ids@.len() == i,
                forall|j: int| 0 <= j < i ==> block_ids@[j] == #[trigger] generated_blocks(h, basis_y as int)[j],
            decreases CHUNK_SIZE - i,
        {
            let x: usize = i % 32;
            let y: usize = (i / 32) % 32;
            let z: usize = i / 1024;
            assert(index_column(i as int) == x + z * 32);
            let column: usize = x + z * 32;
            let b = column_block(heights[column], base_y + y as i64);
            block_ids.push(b);
            i = i + 1;
        }
        let mut height_map: Vec<Option<i32>> = Vec::with_capacity(CHUNK_COLUMNS);
        let mut c: usize = 0;
        while c < CHUNK_COLUMNS
            invariant
                h == heights@,
                h.len() == CHUNK_COLUMNS,
                base_y == basis_y as int * 32,
                c <= CHUNK_COLUMNS,
                height_map@.len() == c,
                forall|j: int| 0 <= j < c ==> height_map@[j] == #[trigger] generated_surface(h, basis_y as int)[j],
            decreases CHUNK_COLUMNS - c,
        {
            let gy: i64 = heights[c] as i64 + 3;
            if gy > SEA_LEVEL && base_y <= gy && gy < base_y + 32 {
                height_map.push(Some((gy - base_y) as i32));
            } else {
                height_map.push(None);
            }
            c = c + 1;
        }
        assert(block_ids@ =~= generated_blocks(h, basis_y as int));
        assert(height_map@ =~= generated_surface(h, basis_y as int));
        ChunkData { block_ids, height_map }
    }

    /// Writes `block_id` at local `(x, y, z)`.
    pub fn set_block(&mut self, x: usize, y: usize, z: usize, block_id: u8)
        requires
            old(self).wf(),
            x < CHUNK_SIZE_X,
            y < CHUNK_SIZE_X,
            z < CHUNK_SIZE_X,
        ensures
            final(self).wf(),
            final(self).block_ids@ == old(self).block_ids@.update(voxel_index(x as int, y as int, z as int), block_id),
            final(self).height_map@ == old(self).height_map@,
    {
        proof {
            lemma_voxel_index_decode(x as int, y as int, z as int);
        }
        let index = x + y * 32 + z * 1024;
        self.block_ids.set(index, block_id);
    }

    /// Reads the block at local `(x, y, z)`.
    pub fn get_block(&self, x: usize, y: usize, z: usize) -> (r: u8)
        requires
            self.wf(),
            x < CHUNK_SIZE_X,
            y < CHUNK_SIZE_X,
            z < CHUNK_SIZE_X,
        ensures
            r == self.spec_block(x as int, y as int, z as int),
    {
        proof {
            lemma_voxel_index_decode(x as int, y as int, z as int);
        }
        let index = x + y * 32 + z * 1024;
        self.block_ids[index]
    }
}

/// Where a chunk stands in its generation: nothing computed, height field
/// cached, or voxels materialized (which always comes with its height field).
pub enum ChunkStage {
    Empty,
    Noised(ChunkNoises),
    Formed(ChunkNoises, ChunkData),
}

/// A chunk at chunk coordinate `(x, y, z)` and its generation stage.
pub struct ChunkState {
    pub stage: ChunkStage,
    pub x: i32,
    pub y: i32,
    pub z: i32,
}

impl ChunkState {
    /// Any cached height field belongs to this coordinate.
    pub open spec fn wf(&self) -> bool {
        match self.stage {
            ChunkStage::Empty => true,
            ChunkStage::Noised(n) => n.wf(self.x, self.y, self.z),
            ChunkStage::Formed(n, d) => n.wf(self.x, self.y, self.z) && d.wf(),
        }
    }

    pub open spec fn spec_is_formed(&self) -> bool {
        self.stage is Formed
    }

    /// The cached height field, if any.
    pub open spec fn spec_noises(&self) -> Option<ChunkNoises> {
        match self.stage {
            ChunkStage::Empty => None,
            ChunkStage::Noised(n) => Some(n),
            ChunkStage::Formed(n, _) => Some(n),
        }
    }

    /// The voxels of a formed chunk.
    pub open spec fn blocks(&self) -> Seq<u8> {
        self.stage->Formed_1.block_ids@
    }

    /// The surface height map of a formed chunk.
    pub open spec fn surface(&self) -> Seq<Option<i32>> {
        self.stage->Formed_1.height_map@
    }

    /// The block at local `(x, y, z)` of a formed chunk.
    pub open spec fn spec_block(&self, x: int, y: int, z: int) -> u8 {
        self.blocks()[voxel_index(x, y, z)]
    }

    /// A formed chunk whose voxels and surface map are those generation
    /// derives from its height field.
    pub open spec fn is_generated(&self) -> bool {
        &&& self.spec_is_formed()
        &&& self.blocks() == generated_blocks(self.stage->Formed_0.target_height@, self.y as int)
        &&& self.surface() == generated_surface(self.stage->Formed_0.target_height@, self.y as int)
    }

    pub open spec fn new_spec(x: i32, y: i32, z: i32) -> ChunkState {
        ChunkState { stage: ChunkStage::Empty, x, y, z }
    }

    /// A chunk with nothing generated yet.
    pub fn new(x: i32, y: i32, z: i32) -> (r: ChunkState)
        ensures
            r == ChunkState::new_spec(x, y, z),
    {
        ChunkState { stage: ChunkStage::Empty, x, y, z }
    }

    /// Computes the height field unless it is cached already.
    pub fn ensure_noised<T: TerrainShape>(&mut self, terrain: &T)
        requires
            old(self).wf(),
        ensures
            final(self).wf(),
            !(final(self).stage is Empty),
            final(self).x == old(self).x,
            final(self).y == old(self).y,
            final(self).z == old(self).z,
            !(old(self).stage is Empty) ==> *final(self) == *old(self),
            old(self).stage is Empty ==> final(self).stage is Noised,
    {
        if let ChunkStage::Empty = self.stage {
            self.stage = ChunkStage::Noised(ChunkNoises::new(terrain, self.x, self.y, self.z));
        }
    }

    /// Materializes the voxels from the height field (computing that first
    /// if needed) unless they are already; once formed, further calls change
    /// nothing.
    pub fn ensure_formed<T: TerrainShape>(&mut self, terrain: &T)
        requires
            old(self).wf(),
        ensures
            final(self).wf(),
            final(self).spec_is_formed(),
            final(self).x == old(self).x,
            final(self).y == old(self).y,
            final(self).z == old(self).z,
            old(self).spec_is_formed() ==> *final(self) == *old(self),
            !old(self).spec_is_formed() ==> final(self).is_generated(),
            old(self).spec_noises() is Some ==> final(self).spec_noises() == old(self).spec_noises(),
    {
        if !self.is_formed() {
            self.ensure_noised(terrain);
            let mut stage = ChunkStage::Empty;
            std::mem::swap(&mut stage, &mut self.stage);
            if let ChunkStage::Noised(noises) = stage {
                let data = ChunkData::new(self.x, self.y, self.z, &noises);
                self.stage = ChunkStage::Formed(noises, data);
            }
        }
    }

    pub fn is_formed(&self) -> (r: bool)
        ensures
            r == self.spec_is_formed(),
    {
        if let ChunkStage::Formed(_, _) = self.stage {
            true
        } else {
            false
        }
    }

    /// Writes `block_id` at local `(x, y, z)`, forming the chunk first. The
    /// other voxels are those the chunk held, or, if it was not formed, those
    /// generation gives it.
    pub fn set_block<T: TerrainShape>(&mut self, terrain: &T, x: usize, y: usize, z: usize, block_id: u8)
        requires
            old(self).wf(),
            x < CHUNK_SIZE_X,
            y < CHUNK_SIZE_X,
            z < CHUNK_SIZE_X,
        ensures
            final(self).wf(),
            final(self).spec_is_formed(),
            final(self).x == old(self).x,
            final(self).y == old(self).y,
            final(self).z == old(self).z,
            old(self).spec_noises() is Some ==> final(self).spec_noises() == old(self).spec_noises(),
            old(self).spec_is_formed() ==> final(self).blocks() == old(self).blocks().update(voxel_index(x as int, y as int, z as int), block_id),
            old(self).spec_is_formed() ==> final(self).surface() == old(self).surface(),
            !old(self).spec_is_formed() ==> final(self).blocks() == generated_blocks(final(self).stage->Formed_0.target_height@, final(self).y as int).update(voxel_index(x as int, y as int, z as int), block_id),
            !old(self).spec_is_formed() ==> final(self).surface() == generated_surface(final(self).stage->Formed_0.target_height@, final(self).y as int),
    {
        self.ensure_formed(terrain);
        if let ChunkStage::Formed(_, data) = &mut self.stage {
            data.set_block(x, y, z, block_id);
        }
    }

    /// Reads the block at local `(x, y, z)` of a formed chunk.
    pub fn get_block(&self, x: usize, y: usize, z: usize) -> (r: u8)
        requires
            self.spec_is_formed(),
            self.stage->Formed_1.wf(),
            x < CHUNK_SIZE_X,
            y < CHUNK_SIZE_X,
            z < CHUNK_SIZE_X,
        ensures
            r == self.spec_block(x as int, y as int, z as int),
    {
        match &self.stage {
            ChunkStage::Formed(_, data) => data.get_block(x, y, z),
            _ => AIR,
        }
    }
}

/// Generation depends on the coordinate and the height field alone: two
/// freshly formed chunks at the same coordinate with the same column
/// heights hold identical voxels, surface maps and seeds. (A height-field
/// function gives the same heights for the same coordinate.)
pub proof fn lemma_generation_deterministic(a: ChunkState, b: ChunkState)
    requires
        a.wf(),
        b.wf(),
        a.x == b.x,
        a.y == b.y,
        a.z == b.z,
        a.is_generated(),
        b.is_generated(),
        a.stage->Formed_0.target_height@ == b.stage->Formed_0.target_height@,
    ensures
        a.blocks() == b.blocks(),
        a.surface() == b.surface(),
        a.stage->Formed_0.seed == b.stage->Formed_0.seed,
{
}

} // verus!
