//! Point-in-time snapshots of an axis-aligned box of voxels.
use crate::chunk::TerrainShape;
use crate::coords::{chunk_coord, chunk_of};
use crate::world::{chunk32, World};
use vstd::arithmetic::div_mod::{
    lemma_div_is_ordered, lemma_fundamental_div_mod, lemma_fundamental_div_mod_converse,
    lemma_mod_bound, lemma_multiply_divide_lt,
};
use vstd::prelude::*;

verus! {

/// Offsets `(i0, i1, i2)` in a box of extent `(n0, n1, n2)` lie at flat
/// index `i0 + n0 * (i1 + n1 * i2)`, which is inside the box's volume and
/// decodes back to them.
pub proof fn lemma_encode3(i0: int, i1: int, i2: int, n0: int, n1: int, n2: int)
    requires
        0 <= i0 < n0,
        0 <= i1 < n1,
        0 <= i2 < n2,
    ensures
        0 <= i0 + n0 * (i1 + n1 * i2) < n0 * n1 * n2,
        (i0 + n0 * (i1 + n1 * i2)) % n0 == i0,
        ((i0 + n0 * (i1 + n1 * i2)) / n0) % n1 == i1,
        ((i0 + n0 * (i1 + n1 * i2)) / n0) / n1 == i2,
{
    let t = i1 + n1 * i2;
    let j = i0 + n0 * t;
    assert(0 <= t < n1 * n2) by (nonlinear_arith)
        requires
            t == i1 + n1 * i2,
            0 <= i1 < n1,
            0 <= i2 < n2,
    ;
    assert(0 <= j < n0 * n1 * n2) by (nonlinear_arith)
        requires
            j == i0 + n0 * t,
            0 <= i0 < n0,
            0 <= t < n1 * n2,
    ;
    assert(j == t * n0 + i0) by (nonlinear_arith)
        requires
            j == i0 + n0 * t,
    ;
    lemma_fundamental_div_mod_converse(j, n0, t, i0);
    assert(t == i2 * n1 + i1) by (nonlinear_arith)
        requires
            t == i1 + n1 * i2,
    ;
    lemma_fundamental_div_mod_converse(t, n1, i2, i1);
}

/// A flat index `j` inside a box of extent `(n0, n1, n2)` decodes to
/// offsets inside the box, which encode back to `j`.
pub proof fn lemma_decode3(j: int, n0: int, n1: int, n2: int)
    requires
        0 <= j < n0 * n1 * n2,
        0 < n0,
        0 < n1,
        0 < n2,
    ensures
        0 <= j % n0 < n0,
        0 <= (j / n0) % n1 < n1,
        0 <= (j / n0) / n1 < n2,
        j == j % n0 + n0 * ((j / n0) % n1 + n1 * ((j / n0) / n1)),
{
    let t = j / n0;
    lemma_fundamental_div_mod(j, n0);
    lemma_mod_bound(j, n0);
    assert(j < n0 * (n1 * n2)) by (nonlinear_arith)
        requires
            j < n0 * n1 * n2,
    ;
    lemma_multiply_divide_lt(j, n0, n1 * n2);
    assert(t >= 0) by (nonlinear_arith)
        requires
            t == j / n0,
            j >= 0,
            n0 > 0,
    ;
    lemma_fundamental_div_mod(t, n1);
    lemma_mod_bound(t, n1);
    lemma_multiply_divide_lt(t, n1, n2);
    assert(t / n1 >= 0) by (nonlinear_arith)
        requires
            t >= 0,
            n1 > 0,
    ;
}

/// A coordinate between two others lies in a chunk between theirs.
proof fn lemma_chunk_in_range(lo: i32, x: i32, hi: i32)
    requires
        lo <= x <= hi,
    ensures
        chunk_of(lo as int) <= chunk_of(x as int) <= chunk_of(hi as int),
        chunk32(x) as int == chunk_of(x as int),
{
    lemma_div_is_ordered(lo as int, x as int, 32);
    lemma_div_is_ordered(x as int, hi as int, 32);
    crate::coords::lemma_chunk_local_round_trip(x as int);
}

/// World coordinates of the `j`-th voxel of a box laid out x fastest.
pub open spec fn box_position(origin: (i32, i32, i32), size: (i32, i32, i32), j: int) -> (int, int, int) {
    (
        origin.0 + j % (size.0 as int),
        origin.1 + (j / (size.0 as int)) % (size.1 as int),
        origin.2 + (j / (size.0 as int)) / (size.1 as int),
    )
}

/// A dense copy of the voxels of the box that starts at `origin` and spans
/// `size` voxels along each axis, voxel `(x, y, z)` of the box at index
/// `x + y * size.0 + z * size.0 * size.1`.
pub struct WorldView {
    pub data: Vec<u8>,
    pub origin: (i32, i32, i32),
    pub size: (i32, i32, i32),
}

impl WorldView {
    /// The extents are not negative, the far corner is an `i32` coordinate,
    /// and the data covers the box exactly.
    pub open spec fn wf(&self) -> bool {
        &&& self.size.0 >= 0
        &&& self.size.1 >= 0
        &&& self.size.2 >= 0
        &&& self.origin.0 + self.size.0 - 1 <= i32::MAX
        &&& self.origin.1 + self.size.1 - 1 <= i32::MAX
        &&& self.origin.2 + self.size.2 - 1 <= i32::MAX
        &&& self.data@.len() == self.volume()
    }

    pub open spec fn volume(&self) -> int {
        self.size.0 * self.size.1 * self.size.2
    }

    pub open spec fn spec_contains(&self, x: int, y: int, z: int) -> bool {
        &&& self.origin.0 <= x < self.origin.0 + self.size.0
        &&& self.origin.1 <= y < self.origin.1 + self.size.1
        &&& self.origin.2 <= z < self.origin.2 + self.size.2
    }

    /// Index in `data` of world voxel `(x, y, z)`.
    pub open spec fn index_of(&self, x: int, y: int, z: int) -> int {
        (x - self.origin.0) + self.size.0 * ((y - self.origin.1) + self.size.1 * (z - self.origin.2))
    }

    /// The block the view gives for world voxel `(x, y, z)`: the copied one
    /// inside the box, air outside.
    pub open spec fn spec_get_block(&self, x: int, y: int, z: int) -> u8 {
        if self.spec_contains(x, y, z) && 0 <= self.index_of(x, y, z) < self.data@.len() {
            self.data@[self.index_of(x, y, z)]
        } else {
            0
        }
    }

    /// The `k`-th entry of `iter_blocks`: voxels in order of x, then y, then
    /// z, z varying fastest.
    pub open spec fn iter_entry(&self, k: int) -> (i32, i32, i32, u8) {
        let sy = self.size.1 as int;
        let sz = self.size.2 as int;
        let x = self.origin.0 + (k / sz) / sy;
        let y = self.origin.1 + (k / sz) % sy;
        let z = self.origin.2 + k % sz;
        (x as i32, y as i32, z as i32, self.spec_get_block(x, y, z))
    }

    /// Reads world voxel `(x, y, z)`: its copied block inside the box, air
    /// outside it.
    pub fn get_block(&self, x: i32, y: i32, z: i32) -> (r: u8)
        ensures
            r == self.spec_get_block(x as int, y as int, z as int),
    {
        if !self.contains(x, y, z) {
            return 0;
        }
        let lx = x as i128 - self.origin.0 as i128;
        let ly = y as i128 - self.origin.1 as i128;
        let lz = z as i128 - self.origin.2 as i128;
        let sx = self.size.0 as i128;
        let sy = self.size.1 as i128;
        assert(0 <= sy * lz <= 0x1_0000_0000 * 0x1_0000_0000) by (nonlinear_arith)
            requires
                0 <= lz < 0x1_0000_0000,
                0 < sy < 0x1_0000_0000,
        ;
        let inner = ly + sy * lz;
        assert(0 <= sx * inner <= 0x1_0000_0000 * 0x1_0000_0000 * 0x1_0000_0000) by (nonlinear_arith)
            requires
                0 <= inner <= 0x1_0000_0000 * 0x1_0000_0000 + 0x1_0000_0000,
                0 < sx < 0x1_0000_0000,
        ;
        let index = lx + sx * inner;
        if index < self.data.len() as i128 {
            self.data[index as usize]
        } else {
            0
        }
    }

    /// Whether world voxel `(x, y, z)` lies in the box.
    pub fn contains(&self, x: i32, y: i32, z: i32) -> (r: bool)
        ensures
            r == self.spec_contains(x as int, y as int, z as int),
    {
        let (ox, oy, oz) = self.origin;
        let (sx, sy, sz) = self.size;
        x as i64 >= ox as i64 && (x as i64) < ox as i64 + sx as i64 && y as i64 >= oy as i64 && (y as i64)
            < oy as i64 + sy as i64 && z as i64 >= oz as i64 && (z as i64) < oz as i64 + sz as i64
    }

    /// Every voxel of the box with its block, in order of x, then y, then z,
    /// z varying fastest; nothing when an extent is not positive.
    pub fn iter_blocks(&self) -> (r: Vec<(i32, i32, i32, u8)>)
        requires
            self.origin.0 + self.size.0 - 1 <= i32::MAX,
            self.origin.1 + self.size.1 - 1 <= i32::MAX,
            self.origin.2 + self.size.2 - 1 <= i32::MAX,
            self.size.0 >= 1 && self.size.1 >= 1 && self.size.2 >= 1 ==> self.volume() <= usize::MAX,
        ensures
            self.size.0 < 1 || self.size.1 < 1 || self.size.2 < 1 ==> r@.len() == 0,
            self.size.0 >= 1 && self.size.1 >= 1 && self.size.2 >= 1 ==> {
                &&& r@.len() == self.volume()
                &&& forall|k: int| 0 <= k < r@.len() ==> #[trigger] r@[k] == self.iter_entry(k)
            },
    {
        let mut r: Vec<(i32, i32, i32, u8)> = Vec::new();
        let (ox, oy, oz) = self.origin;
        let (sx, sy, sz) = self.size;
        if sx < 1 || sy < 1 || sz < 1 {
            return r;
        }
        let nx = sx as usize;
        let ny = sy as usize;
        let nz = sz as usize;
        assert(nx * ny * nz == self.volume());
        assert(nz * ny * nx == self.volume()) by (nonlinear_arith)
            requires
                nx * ny * nz == self.volume(),
        ;
        assert(nx * ny <= nx * ny * nz) by (nonlinear_arith)
            requires
                nx >= 1,
                ny >= 1,
                nz >= 1,
        ;
        let total = nx * ny * nz;
        let mut k: usize = 0;
        while k < total
            invariant
                nx == sx,
                ny == sy,
                nz == sz,
                nx >= 1 && ny >= 1 && nz >= 1,
                (ox, oy, oz) == self.origin,
                (sx, sy, sz) == self.size,
                total == self.volume(),
                nz * ny * nx == self.volume(),
                self.origin.0 + self.size.0 - 1 <= i32::MAX,
                self.origin.1 + self.size.1 - 1 <= i32::MAX,
                self.origin.2 + self.size.2 - 1 <= i32::MAX,
                k <= total,
                r@.len() == k,
                forall|i: int| 0 <= i < k ==> #[trigger] r@[i] == self.iter_entry(i),
            decreases total - k,
        {
            proof {
                lemma_decode3(k as int, nz as int, ny as int, nx as int);
            }
            let vz = k % nz;
            let vy = (k / nz) % ny;
            let vx = (k / nz) / ny;
            let x = ox + vx as i32;
            let y = oy + vy as i32;
            let z = oz + vz as i32;
            r.push((x, y, z, self.get_block(x, y, z)));
            k = k + 1;
        }
        r
    }

    /// Copies the voxels of the box `[start_x, end_x] x [start_y, end_y] x
    /// [start_z, end_z]` out of `world` (an end one below its start gives an
    /// empty extent): makes sure the covering chunks exist, forms each, then
    /// reads every voxel. The view holds exactly the
    /// world's blocks in the box (blocks the world already held among them)
    /// and air outside it; no block the world held changes.
    pub fn from_range<T: TerrainShape>(
        world: &mut World<T>,
        start_x: i32,
        end_x: i32,
        start_y: i32,
        end_y: i32,
        start_z: i32,
        end_z: i32,
    ) -> (r: WorldView)
        requires
            old(world).wf(),
            start_x - 1 <= end_x < start_x + i32::MAX,
            start_y - 1 <= end_y < start_y + i32::MAX,
            start_z - 1 <= end_z < start_z + i32::MAX,
            (end_x - start_x + 1) * (end_y - start_y + 1) * (end_z - start_z + 1) <= usize::MAX,
        ensures
            final(world).wf(),
            old(world).grows_to(final(world)),
            r.wf(),
            r.origin == (start_x, start_y, start_z),
            r.size == ((end_x - start_x + 1) as i32, (end_y - start_y + 1) as i32, (end_z - start_z + 1) as i32),
            forall|x: i32, y: i32, z: i32| #[trigger] r.spec_contains(x as int, y as int, z as int) ==> {
                &&& final(world).voxel_known(x, y, z)
                &&& r.spec_get_block(x as int, y as int, z as int) == final(world).block(x, y, z)
                &&& old(world).voxel_known(x, y, z) ==> r.spec_get_block(x as int, y as int, z as int) == old(world).block(x, y, z)
            },
            forall|x: int, y: int, z: int| !r.spec_contains(x, y, z) ==> #[trigger] r.spec_get_block(x, y, z) == 0,
    {
        let cx0 = chunk_coord(start_x);
        let cx1 = chunk_coord(end_x);
        let cy0 = chunk_coord(start_y);
        let cy1 = chunk_coord(end_y);
        let cz0 = chunk_coord(start_z);
        let cz1 = chunk_coord(end_z);
        world.create_chunks(cx0, cx1, cy0, cy1, cz0, cz1);
        let ghost probed = *world;
        world.form_chunks(cx0, cx1, cy0, cy1, cz0, cz1);
        let ghost formed = *world;
        proof {
            old(world).lemma_grows_trans(&probed, &formed);
            formed.lemma_grows_refl();
        }
        let sx = end_x - start_x + 1;
        let sy = end_y - start_y + 1;
        let sz = end_z - start_z + 1;
        let nx = sx as usize;
        let ny = sy as usize;
        let nz = sz as usize;
        let total: usize = if nx == 0 || ny == 0 || nz == 0 {
            assert(nx * ny * nz == 0) by (nonlinear_arith)
                requires
                    nx == 0 || ny == 0 || nz == 0,
            ;
            0
        } else {
            assert(nx * ny <= nx * ny * nz) by (nonlinear_arith)
                requires
                    nx >= 1,
                    ny >= 1,
                    nz >= 1,
            ;
            nx * ny * nz
        };
        let origin = (start_x, start_y, start_z);
        let size = (sx, sy, sz);
        let mut data: Vec<u8> = Vec::new();
        let mut j: usize = 0;
        while j < total
            invariant
                world.wf(),
                formed.grows_to(world),
                forall|cx: i32, cy: i32, cz: i32|
                    cx0 <= cx <= cx1 && cy0 <= cy <= cy1 && cz0 <= cz <= cz1 ==> #[trigger] formed.is_formed_at(cx, cy, cz),
                cx0 as int == chunk_of(start_x as int) && cx1 as int == chunk_of(end_x as int),
                cy0 as int == chunk_of(start_y as int) && cy1 as int == chunk_of(end_y as int),
                cz0 as int == chunk_of(start_z as int) && cz1 as int == chunk_of(end_z as int),
                nx == sx && ny == sy && nz == sz,
                total > 0 ==> nx >= 1 && ny >= 1 && nz >= 1,
                origin == (start_x, start_y, start_z),
                size == (sx, sy, sz),
                start_x + sx - 1 == end_x,
                start_y + sy - 1 == end_y,
                start_z + sz - 1 == end_z,
                total == nx * ny * nz,
                j <= total,
                data@.len() == j,
                forall|i: int| 0 <= i < j ==> {
                    let p = #[trigger] box_position(origin, size, i);
                    data@[i] == formed.block(p.0 as i32, p.1 as i32, p.2 as i32)
                },
            decreases total - j,
        {
            proof {
                lemma_decode3(j as int, nx as int, ny as int, nz as int);
            }
            let vx = j % nx;
            let vy = (j / nx) % ny;
            let vz = (j / nx) / ny;
            let x = start_x + vx as i32;
            let y = start_y + vy as i32;
            let z = start_z + vz as i32;
            let ghost before = *world;
            let b = world.get_block(x, y, z);
            proof {
                formed.lemma_grows_trans(&before, world);
                lemma_chunk_in_range(start_x, x, end_x);
                lemma_chunk_in_range(start_y, y, end_y);
                lemma_chunk_in_range(start_z, z, end_z);
                assert(formed.is_formed_at(chunk32(x), chunk32(y), chunk32(z)));
                formed.lemma_grows_keeps_blocks(world, x, y, z);
            }
            data.push(b);
            j = j + 1;
        }
        let r = WorldView { data, origin, size };
        proof {
            assert forall|x: i32, y: i32, z: i32| #[trigger] r.spec_contains(x as int, y as int, z as int) implies {
                &&& world.voxel_known(x, y, z)
                &&& r.spec_get_block(x as int, y as int, z as int) == world.block(x, y, z)
                &&& old(world).voxel_known(x, y, z) ==> r.spec_get_block(x as int, y as int, z as int) == old(world).block(x, y, z)
            } by {
                let lx = x - start_x;
                let ly = y - start_y;
                let lz = z - start_z;
                lemma_encode3(lx, ly, lz, sx as int, sy as int, sz as int);
                let i = r.index_of(x as int, y as int, z as int);
                assert(i == lx + sx * (ly + sy * lz));
                let p = box_position(origin, size, i);
                assert(p == (x as int, y as int, z as int));
                lemma_chunk_in_range(start_x, x, end_x);
                lemma_chunk_in_range(start_y, y, end_y);
                lemma_chunk_in_range(start_z, z, end_z);
                assert(formed.is_formed_at(chunk32(x), chunk32(y), chunk32(z)));
                formed.lemma_grows_keeps_blocks(world, x, y, z);
                if old(world).voxel_known(x, y, z) {
                    old(world).lemma_grows_keeps_blocks(&formed, x, y, z);
                }
            }
            old(world).lemma_grows_trans(&formed, world);
        }
        r
    }

    /// The first and the last voxel of the box.
    pub fn bounds(&self) -> (r: ((i32, i32, i32), (i32, i32, i32)))
        requires
            i32::MIN <= self.origin.0 + self.size.0 - 1 <= i32::MAX,
            i32::MIN <= self.origin.1 + self.size.1 - 1 <= i32::MAX,
            i32::MIN <= self.origin.2 + self.size.2 - 1 <= i32::MAX,
        ensures
            r.0 == self.origin,
            r.1.0 == self.origin.0 + self.size.0 - 1,
            r.1.1 == self.origin.1 + self.size.1 - 1,
            r.1.2 == self.origin.2 + self.size.2 - 1,
    {
        let (ox, oy, oz) = self.origin;
        let (sx, sy, sz) = self.size;
        (
            (ox, oy, oz),
            (
                (ox as i64 + sx as i64 - 1) as i32,
                (oy as i64 + sy as i64 - 1) as i32,
                (oz as i64 + sz as i64 - 1) as i32,
            ),
        )
    }
}

} // verus!
