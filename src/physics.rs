//! What physics asks of the world: which voxels are solid, as per-chunk
//! collision masks built in the background and consulted without blocking.
use crate::chunk::{lemma_voxel_index_decode, index_x, index_y, index_z, TerrainShape};
use crate::coords::{chunk_coord, chunk_key, local_coord, CHUNK_SIZE, CHUNK_SIZE_X};
use crate::deferred::QueuedItem;
use crate::tile::{Tile, TileRegistry};
use crate::view::WorldView;
use crate::world::{chunk32, key_of, local_index, World};
use std::collections::HashMap;
use vstd::prelude::*;

verus! {

broadcast use vstd::std_specs::hash::group_hash_axioms;

/// Whether the registry calls block id `id` solid; air and unregistered ids
/// are not.
pub open spec fn solid_id(registry: &TileRegistry, id: u8) -> bool {
    match registry.handler(id) {
        Some(t) => t.spec_is_solid(),
        None => false,
    }
}

/// Which voxels of one chunk are solid, at the chunk's flat voxel indices.
pub struct VoxelCollisionChunk {
    pub is_solid: Vec<bool>,
}

impl VoxelCollisionChunk {
    /// Builds the mask of chunk `(chunk_x, chunk_y, chunk_z)` from a view of
    /// the chunk: a voxel is solid when the registry says its block is. A
    /// block id with no registered tile is taken as not solid, like air,
    /// rather than stopping the build.
    pub fn from_world<T: TerrainShape>(
        world: &mut World<T>,
        tile_registry: &TileRegistry,
        chunk_x: i32,
        chunk_y: i32,
        chunk_z: i32,
    ) -> (r: VoxelCollisionChunk)
        requires
            old(world).wf(),
            tile_registry.wf(),
            i32::MIN <= chunk_x * CHUNK_SIZE_X && chunk_x * CHUNK_SIZE_X + CHUNK_SIZE_X - 1 <= i32::MAX,
            i32::MIN <= chunk_y * CHUNK_SIZE_X && chunk_y * CHUNK_SIZE_X + CHUNK_SIZE_X - 1 <= i32::MAX,
            i32::MIN <= chunk_z * CHUNK_SIZE_X && chunk_z * CHUNK_SIZE_X + CHUNK_SIZE_X - 1 <= i32::MAX,
        ensures
            final(world).wf(),
            old(world).grows_to(final(world)),
            r.is_solid@.len() == CHUNK_SIZE,
            forall|i: int| 0 <= i < CHUNK_SIZE ==> #[trigger] r.is_solid@[i] == solid_id(
                tile_registry,
                final(world).block(
                    (chunk_x * CHUNK_SIZE_X + index_x(i)) as i32,
                    (chunk_y * CHUNK_SIZE_X + index_y(i)) as i32,
                    (chunk_z * CHUNK_SIZE_X + index_z(i)) as i32,
                ),
            ),
    {
        let start_x = chunk_x * CHUNK_SIZE_X;
        let start_y = chunk_y * CHUNK_SIZE_X;
        let start_z = chunk_z * CHUNK_SIZE_X;
        assert((start_x + (CHUNK_SIZE_X - 1) - start_x + 1) * (start_y + (CHUNK_SIZE_X - 1) - start_y + 1) * (start_z
            + (CHUNK_SIZE_X - 1) - start_z + 1) == 32768) by (nonlinear_arith);
        let view = WorldView::from_range(
            world,
            start_x,
            start_x + (CHUNK_SIZE_X - 1),
            start_y,
            start_y + (CHUNK_SIZE_X - 1),
            start_z,
            start_z + (CHUNK_SIZE_X - 1),
        );
        let mut is_solid: Vec<bool> = Vec::new();
        let mut i: usize = 0;
        while i < CHUNK_SIZE as usize
            invariant
                tile_registry.wf(),
                start_x == chunk_x * CHUNK_SIZE_X,
                start_y == chunk_y * CHUNK_SIZE_X,
                start_z == chunk_z * CHUNK_SIZE_X,
                start_x + CHUNK_SIZE_X - 1 <= i32::MAX,
                start_y + CHUNK_SIZE_X - 1 <= i32::MAX,
                start_z + CHUNK_SIZE_X - 1 <= i32::MAX,
                view.origin == (start_x, start_y, start_z),
                view.size == (CHUNK_SIZE_X, CHUNK_SIZE_X, CHUNK_SIZE_X),
                forall|x: i32, y: i32, z: i32| #[trigger] view.spec_contains(x as int, y as int, z as int)
                    ==> view.spec_get_block(x as int, y as int, z as int) == world.block(x, y, z),
                i <= CHUNK_SIZE,
                is_solid@.len() == i,
                forall|j: int| 0 <= j < i ==> #[trigger] is_solid@[j] == solid_id(
                    tile_registry,
                    world.block(
                        (chunk_x * CHUNK_SIZE_X + index_x(j)) as i32,
                        (chunk_y * CHUNK_SIZE_X + index_y(j)) as i32,
                        (chunk_z * CHUNK_SIZE_X + index_z(j)) as i32,
                    ),
                ),
            decreases CHUNK_SIZE - i,
        {
            let x = start_x + (i % 32) as i32;
            let y = start_y + ((i / 32) % 32) as i32;
            let z = start_z + (i / 1024) as i32;
            assert(view.spec_contains(x as int, y as int, z as int));
            let block_id = view.get_block(x, y, z);
            is_solid.push(tile_registry.is_solid(block_id));
            i = i + 1;
        }
        VoxelCollisionChunk { is_solid }
    }
}

/// The collision masks that physics has asked for, by chunk, each possibly
/// still being built.
pub struct PhysicsEnvironment {
    pub collision_chunks: HashMap<i128, QueuedItem<VoxelCollisionChunk>>,
    pub tile_registry: TileRegistry,
}

impl PhysicsEnvironment {
    /// No masks yet.
    pub fn with_registry(tile_registry: TileRegistry) -> (r: PhysicsEnvironment)
        ensures
            r.collision_chunks@.is_empty(),
            r.tile_registry == tile_registry,
    {
        PhysicsEnvironment { collision_chunks: HashMap::new(), tile_registry }
    }

    /// Tracks the mask of chunk `chunk_pos`, replacing any earlier one.
    pub fn insert_chunk(&mut self, chunk_pos: (i32, i32, i32), item: QueuedItem<VoxelCollisionChunk>)
        ensures
            final(self).collision_chunks@ == old(self).collision_chunks@.insert(key_of(chunk_pos.0, chunk_pos.1, chunk_pos.2), item),
            final(self).tile_registry == old(self).tile_registry,
    {
        self.collision_chunks.insert(chunk_key(chunk_pos.0, chunk_pos.1, chunk_pos.2), item);
    }

    /// Forgets the mask of chunk `chunk_pos`.
    pub fn discard_chunk(&mut self, chunk_pos: (i32, i32, i32))
        ensures
            final(self).collision_chunks@ == old(self).collision_chunks@.remove(key_of(chunk_pos.0, chunk_pos.1, chunk_pos.2)),
            final(self).tile_registry == old(self).tile_registry,
    {
        self.collision_chunks.remove(&chunk_key(chunk_pos.0, chunk_pos.1, chunk_pos.2));
    }

    /// Whether world voxel `(x, y, z)` is solid, by the mask of its chunk.
    /// Where that mask is not tracked, not built yet, or failed, the voxel
    /// counts as solid.
    pub fn solid_at(&mut self, x: i32, y: i32, z: i32) -> (r: bool)
        ensures
            final(self).tile_registry == old(self).tile_registry,
            final(self).collision_chunks@.dom() == old(self).collision_chunks@.dom(),
            ({
                let k = key_of(chunk32(x), chunk32(y), chunk32(z));
                if !old(self).collision_chunks@.contains_key(k) {
                    r && final(self).collision_chunks@ == old(self).collision_chunks@
                } else {
                    match final(self).collision_chunks@[k] {
                        QueuedItem::Ready(c) => r == (c.is_solid@.len() != CHUNK_SIZE || c.is_solid@[local_index(x, y, z)]),
                        _ => r,
                    }
                }
            }),
    {
        let cx = chunk_coord(x);
        let cy = chunk_coord(y);
        let cz = chunk_coord(z);
        let lx = local_coord(x);
        let ly = local_coord(y);
        let lz = local_coord(z);
        proof {
            lemma_voxel_index_decode(lx as int, ly as int, lz as int);
        }
        let k = chunk_key(cx, cy, cz);
        match self.collision_chunks.remove(&k) {
            None => true,
            Some(mut item) => {
                let solid = match item.get() {
                    Some(chunk) => {
                        if chunk.is_solid.len() != CHUNK_SIZE as usize {
                            true
                        } else {
                            chunk.is_solid[lx + ly * 32 + lz * 1024]
                        }
                    },
                    None => true,
                };
                self.collision_chunks.insert(k, item);
                proof {
                    assert(self.collision_chunks@.dom() =~= old(self).collision_chunks@.dom());
                }
                solid
            },
        }
    }
}

} // verus!
