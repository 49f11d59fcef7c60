//! A fixed cube of chunks held for exclusive editing, for edits that may
//! cross chunk boundaries.
use crate::chunk::{ChunkState, TerrainShape};
use crate::coords::{chunk_coord, chunk_key};
use crate::world::{chunk32, World};
use vstd::prelude::*;

verus! {

/// The cube of chunks `center ± radius` of a world, formed up front and held
/// exclusively while the neighborhood lives. Reads and writes must stay in
/// the cube.
pub struct Neighborhood<'a, T: TerrainShape> {
    pub world: &'a mut World<T>,
    pub center: (i32, i32, i32),
    pub radius: i32,
}

/// Chunk coordinate `c` lies within `radius` of `center`.
pub open spec fn within(c: int, center: int, radius: int) -> bool {
    center - radius <= c <= center + radius
}

impl<'a, T: TerrainShape> Neighborhood<'a, T> {
    /// The world being edited.
    pub open spec fn held(&self) -> World<T> {
        *self.world
    }

    /// World voxel `(x, y, z)` lies in a chunk of the cube.
    pub open spec fn covers(&self, x: i32, y: i32, z: i32) -> bool {
        &&& within(chunk32(x) as int, self.center.0 as int, self.radius as int)
        &&& within(chunk32(y) as int, self.center.1 as int, self.radius as int)
        &&& within(chunk32(z) as int, self.center.2 as int, self.radius as int)
    }

    /// The world is well formed and every chunk of the cube is formed.
    pub open spec fn wf(&self) -> bool {
        &&& (*self.world).wf()
        &&& self.radius >= 0
        &&& forall|ax: i32, ay: i32, az: i32|
            within(ax as int, self.center.0 as int, self.radius as int) && within(ay as int, self.center.1 as int, self.radius as int)
                && within(az as int, self.center.2 as int, self.radius as int) ==> #[trigger] (*self.world).is_formed_at(ax, ay, az)
    }

    /// Forms every chunk of the cube around chunk `(cx, cy, cz)` and holds
    /// the world for editing.
    pub fn new(world: &'a mut World<T>, cx: i32, cy: i32, cz: i32, radius: i32) -> (r: Neighborhood<'a, T>)
        requires
            old(world).wf(),
            radius >= 0,
            i32::MIN <= cx - radius && cx + radius <= i32::MAX,
            i32::MIN <= cy - radius && cy + radius <= i32::MAX,
            i32::MIN <= cz - radius && cz + radius <= i32::MAX,
        ensures
            r.wf(),
            old(world).grows_to(&*r.world),
            r.center == (cx, cy, cz),
            r.radius == radius,
    {
        world.form_chunks(cx - radius, cx + radius, cy - radius, cy + radius, cz - radius, cz + radius);
        Neighborhood { world, center: (cx, cy, cz), radius }
    }

    /// Writes `block_id` at world voxel `(x, y, z)`, which must lie in the
    /// cube. Subscribers are not notified; no other block changes.
    pub fn set_block(&mut self, x: i32, y: i32, z: i32, block_id: u8)
        requires
            old(self).wf(),
            old(self).covers(x, y, z),
        ensures
            final(self).wf(),
            final(self).center == old(self).center,
            final(self).radius == old(self).radius,
            (*final(self).world).terrain == (*old(self).world).terrain,
            (*final(self).world).chunk_update_listeners@ == (*old(self).world).chunk_update_listeners@,
            (*final(self).world).block(x, y, z) == block_id,
            forall|a: i32, b: i32, c: i32| (a, b, c) != (x, y, z) && (*old(self).world).voxel_known(a, b, c)
                ==> #[trigger] (*final(self).world).block(a, b, c) == (*old(self).world).block(a, b, c),
    {
        let ghost before = *self.world;
        self.world.write_block(x, y, z, block_id);
        proof {
            assert forall|ax: i32, ay: i32, az: i32| before.is_formed_at(ax, ay, az) implies #[trigger] (*self.world).is_formed_at(ax, ay, az) by {
                if (ax, ay, az) != (chunk32(x), chunk32(y), chunk32(z)) {
                    assert((*self.world).chunk_at(ax, ay, az) == before.chunk_at(ax, ay, az));
                }
            }
        }
    }

    /// Reads the block at world voxel `(x, y, z)`, which must lie in the cube.
    pub fn get_block(&mut self, x: i32, y: i32, z: i32) -> (r: u8)
        requires
            old(self).wf(),
            old(self).covers(x, y, z),
        ensures
            final(self).wf(),
            final(self).center == old(self).center,
            final(self).radius == old(self).radius,
            r == (*old(self).world).block(x, y, z),
            (*old(self).world).grows_to(&*final(self).world),
    {
        let ghost before = *self.world;
        let r = self.world.get_block(x, y, z);
        proof {
            before.lemma_grows_keeps_blocks(&*self.world, x, y, z);
            assert forall|ax: i32, ay: i32, az: i32| before.is_formed_at(ax, ay, az) implies #[trigger] (*self.world).is_formed_at(ax, ay, az) by {
                assert(crate::world::chunk_grows(before.chunk_at(ax, ay, az), (*self.world).chunk_at(ax, ay, az)));
            }
        }
        r
    }

    /// The formed chunk of the cube that holds world voxel `(x, y, z)`.
    pub fn get_chunk_immutable(&self, x: i32, y: i32, z: i32) -> (r: &ChunkState)
        requires
            self.wf(),
            self.covers(x, y, z),
        ensures
            self.held().chunk_at(chunk32(x), chunk32(y), chunk32(z)) == Some(*r),
            r.spec_is_formed(),
    {
        let cx = chunk_coord(x);
        let cy = chunk_coord(y);
        let cz = chunk_coord(z);
        assert((*self.world).is_formed_at(cx, cy, cz));
        self.world.chunks.get(&chunk_key(cx, cy, cz)).unwrap()
    }
}

} // verus!
