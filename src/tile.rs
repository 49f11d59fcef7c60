//! The tile registry: small integer block ids resolved to what the storage
//! core and its collaborators ask of a block (solidity, occlusion, material).
use vstd::prelude::*;

verus! {

#[derive(Clone, Copy, Debug, PartialEq, Eq, Structural)]
pub enum TileFace {
    Top,
    Bottom,
    North,
    West,
    South,
    East,
}

#[derive(Clone, Copy, Debug, PartialEq, Eq, Structural)]
pub enum RenderLayer {
    Opaque,
}

/// What a kind of block answers about itself.
pub trait Tile {
    spec fn spec_is_solid(&self) -> bool;

    spec fn spec_occludes_geometry(&self, render_layer: RenderLayer, target: u8) -> bool;

    spec fn spec_is_dual_sided(&self) -> bool;

    spec fn spec_material_for_face(&self, face: TileFace) -> [i32; 2];

    /// Whether the block stops movement.
    fn is_solid(&self) -> (r: bool)
        ensures
            r == self.spec_is_solid(),
    ;

    /// Whether this block, as a neighbor, hides the face of a block with id
    /// `target` in the given layer.
    fn occludes_geometry(&self, render_layer: RenderLayer, target: u8) -> (r: bool)
        ensures
            r == self.spec_occludes_geometry(render_layer, target),
    ;

    /// Whether both sides of the block's faces are drawn.
    fn is_dual_sided(&self) -> (r: bool)
        ensures
            r == self.spec_is_dual_sided(),
    ;

    /// Texture atlas cell of a face.
    fn get_material_for_face(&self, face: TileFace, metadata: u8) -> (r: [i32; 2])
        ensures
            r == self.spec_material_for_face(face),
    ;
}

pub struct StoneTile;

pub struct DirtTile;

pub struct GrassTile;

pub struct WaterTile;

pub struct LogTile;

pub struct LeavesTile;

/// Block id of a log.
pub const LOG: u8 = 5;

/// Block id of leaves.
pub const LEAVES: u8 = 6;

impl Tile for StoneTile {
    open spec fn spec_is_solid(&self) -> bool {
        true
    }

    open spec fn spec_occludes_geometry(&self, render_layer: RenderLayer, target: u8) -> bool {
        true
    }

    open spec fn spec_is_dual_sided(&self) -> bool {
        false
    }

    open spec fn spec_material_for_face(&self, face: TileFace) -> [i32; 2] {
        [1, 0]
    }

    fn is_solid(&self) -> (r: bool) {
        true
    }

    fn occludes_geometry(&self, render_layer: RenderLayer, target: u8) -> (r: bool) {
        true
    }

    fn is_dual_sided(&self) -> (r: bool) {
        false
    }

    fn get_material_for_face(&self, face: TileFace, metadata: u8) -> (r: [i32; 2]) {
        [1, 0]
    }
}

impl Tile for DirtTile {
    open spec fn spec_is_solid(&self) -> bool {
        true
    }

    open spec fn spec_occludes_geometry(&self, render_layer: RenderLayer, target: u8) -> bool {
        true
    }

    open spec fn spec_is_dual_sided(&self) -> bool {
        false
    }

    open spec fn spec_material_for_face(&self, face: TileFace) -> [i32; 2] {
        [2, 0]
    }

    fn is_solid(&self) -> (r: bool) {
        true
    }

    fn occludes_geometry(&self, render_layer: RenderLayer, target: u8) -> (r: bool) {
        true
    }

    fn is_dual_sided(&self) -> (r: bool) {
        false
    }

    fn get_material_for_face(&self, face: TileFace, metadata: u8) -> (r: [i32; 2]) {
        [2, 0]
    }
}

impl Tile for GrassTile {
    open spec fn spec_is_solid(&self) -> bool {
        true
    }

    open spec fn spec_occludes_geometry(&self, render_layer: RenderLayer, target: u8) -> bool {
        true
    }

    open spec fn spec_is_dual_sided(&self) -> bool {
        false
    }

    open spec fn spec_material_for_face(&self, face: TileFace) -> [i32; 2] {
        match face {
            TileFace::Top => [0, 0],
            TileFace::Bottom => [2, 0],
            _ => [3, 0],
        }
    }

    fn is_solid(&self) -> (r: bool) {
        true
    }

    fn occludes_geometry(&self, render_layer: RenderLayer, target: u8) -> (r: bool) {
        true
    }

    fn is_dual_sided(&self) -> (r: bool) {
        false
    }

    fn get_material_for_face(&self, face: TileFace, metadata: u8) -> (r: [i32; 2]) {
        match face {
            TileFace::Top => [0, 0],
            TileFace::Bottom => [2, 0],
            _ => [3, 0],
        }
    }
}

impl Tile for WaterTile {
    open spec fn spec_is_solid(&self) -> bool {
        false
    }

    /// Water hides only the faces of other water.
    open spec fn spec_occludes_geometry(&self, render_layer: RenderLayer, target: u8) -> bool {
        target == crate::chunk::WATER
    }

    open spec fn spec_is_dual_sided(&self) -> bool {
        true
    }

    open spec fn spec_material_for_face(&self, face: TileFace) -> [i32; 2] {
        [15, 13]
    }

    fn is_solid(&self) -> (r: bool) {
        false
    }

    fn occludes_geometry(&self, render_layer: RenderLayer, target: u8) -> (r: bool) {
        target == crate::chunk::WATER
    }

    fn is_dual_sided(&self) -> (r: bool) {
        true
    }

    fn get_material_for_face(&self, face: TileFace, metadata: u8) -> (r: [i32; 2]) {
        [15, 13]
    }
}

impl Tile for LogTile {
    open spec fn spec_is_solid(&self) -> bool {
        true
    }

    open spec fn spec_occludes_geometry(&self, render_layer: RenderLayer, target: u8) -> bool {
        true
    }

    open spec fn spec_is_dual_sided(&self) -> bool {
        false
    }

    open spec fn spec_material_for_face(&self, face: TileFace) -> [i32; 2] {
        match face {
            TileFace::Top | TileFace::Bottom => [5, 1],
            _ => [4, 1],
        }
    }

    fn is_solid(&self) -> (r: bool) {
        true
    }

    fn occludes_geometry(&self, render_layer: RenderLayer, target: u8) -> (r: bool) {
        true
    }

    fn is_dual_sided(&self) -> (r: bool) {
        false
    }

    fn get_material_for_face(&self, face: TileFace, metadata: u8) -> (r: [i32; 2]) {
        match face {
            TileFace::Top | TileFace::Bottom => [5, 1],
            _ => [4, 1],
        }
    }
}

impl Tile for LeavesTile {
    open spec fn spec_is_solid(&self) -> bool {
        true
    }

    /// Leaves hide only the faces of other leaves.
    open spec fn spec_occludes_geometry(&self, render_layer: RenderLayer, target: u8) -> bool {
        target == LEAVES
    }

    open spec fn spec_is_dual_sided(&self) -> bool {
        true
    }

    open spec fn spec_material_for_face(&self, face: TileFace) -> [i32; 2] {
        [4, 3]
    }

    fn is_solid(&self) -> (r: bool) {
        true
    }

    fn occludes_geometry(&self, render_layer: RenderLayer, target: u8) -> (r: bool) {
        target == LEAVES
    }

    fn is_dual_sided(&self) -> (r: bool) {
        true
    }

    fn get_material_for_face(&self, face: TileFace, metadata: u8) -> (r: [i32; 2]) {
        [4, 3]
    }
}

/// The registered kinds of tile, one per built-in block.
#[derive(Clone, Copy, Debug, PartialEq, Eq, Structural)]
pub enum TileKind {
    Stone,
    Dirt,
    Grass,
    Water,
    Log,
    Leaves,
}

impl Tile for TileKind {
    open spec fn spec_is_solid(&self) -> bool {
        match self {
            TileKind::Stone => StoneTile.spec_is_solid(),
            TileKind::Dirt => DirtTile.spec_is_solid(),
            TileKind::Grass => GrassTile.spec_is_solid(),
            TileKind::Water => WaterTile.spec_is_solid(),
            TileKind::Log => LogTile.spec_is_solid(),
            TileKind::Leaves => LeavesTile.spec_is_solid(),
        }
    }

    open spec fn spec_occludes_geometry(&self, render_layer: RenderLayer, target: u8) -> bool {
        match self {
            TileKind::Stone => StoneTile.spec_occludes_geometry(render_layer, target),
            TileKind::Dirt => DirtTile.spec_occludes_geometry(render_layer, target),
            TileKind::Grass => GrassTile.spec_occludes_geometry(render_layer, target),
            TileKind::Water => WaterTile.spec_occludes_geometry(render_layer, target),
            TileKind::Log => LogTile.spec_occludes_geometry(render_layer, target),
            TileKind::Leaves => LeavesTile.spec_occludes_geometry(render_layer, target),
        }
    }

    open spec fn spec_is_dual_sided(&self) -> bool {
        match self {
            TileKind::Stone => StoneTile.spec_is_dual_sided(),
            TileKind::Dirt => DirtTile.spec_is_dual_sided(),
            TileKind::Grass => GrassTile.spec_is_dual_sided(),
            TileKind::Water => WaterTile.spec_is_dual_sided(),
            TileKind::Log => LogTile.spec_is_dual_sided(),
            TileKind::Leaves => LeavesTile.spec_is_dual_sided(),
        }
    }

    open spec fn spec_material_for_face(&self, face: TileFace) -> [i32; 2] {
        match self {
            TileKind::Stone => StoneTile.spec_material_for_face(face),
            TileKind::Dirt => DirtTile.spec_material_for_face(face),
            TileKind::Grass => GrassTile.spec_material_for_face(face),
            TileKind::Water => WaterTile.spec_material_for_face(face),
            TileKind::Log => LogTile.spec_material_for_face(face),
            TileKind::Leaves => LeavesTile.spec_material_for_face(face),
        }
    }

    fn is_solid(&self) -> (r: bool) {
        match self {
            TileKind::Stone => StoneTile.is_solid(),
            TileKind::Dirt => DirtTile.is_solid(),
            TileKind::Grass => GrassTile.is_solid(),
            TileKind::Water => WaterTile.is_solid(),
            TileKind::Log => LogTile.is_solid(),
            TileKind::Leaves => LeavesTile.is_solid(),
        }
    }

    fn occludes_geometry(&self, render_layer: RenderLayer, target: u8) -> (r: bool) {
        match self {
            TileKind::Stone => StoneTile.occludes_geometry(render_layer, target),
            TileKind::Dirt => DirtTile.occludes_geometry(render_layer, target),
            TileKind::Grass => GrassTile.occludes_geometry(render_layer, target),
            TileKind::Water => WaterTile.occludes_geometry(render_layer, target),
            TileKind::Log => LogTile.occludes_geometry(render_layer, target),
            TileKind::Leaves => LeavesTile.occludes_geometry(render_layer, target),
        }
    }

    fn is_dual_sided(&self) -> (r: bool) {
        match self {
            TileKind::Stone => StoneTile.is_dual_sided(),
            TileKind::Dirt => DirtTile.is_dual_sided(),
            TileKind::Grass => GrassTile.is_dual_sided(),
            TileKind::Water => WaterTile.is_dual_sided(),
            TileKind::Log => LogTile.is_dual_sided(),
            TileKind::Leaves => LeavesTile.is_dual_sided(),
        }
    }

    fn get_material_for_face(&self, face: TileFace, metadata: u8) -> (r: [i32; 2]) {
        match self {
            TileKind::Stone => StoneTile.get_material_for_face(face, metadata),
            TileKind::Dirt => DirtTile.get_material_for_face(face, metadata),
            TileKind::Grass => GrassTile.get_material_for_face(face, metadata),
            TileKind::Water => WaterTile.get_material_for_face(face, metadata),
            TileKind::Log => LogTile.get_material_for_face(face, metadata),
            TileKind::Leaves => LeavesTile.get_material_for_face(face, metadata),
        }
    }
}

/// The tile registered by default for block id `id`; air and unused ids
/// have none.
pub open spec fn default_tile(id: int) -> Option<TileKind> {
    if id == crate::chunk::STONE as int {
        Some(TileKind::Stone)
    } else if id == crate::chunk::DIRT as int {
        Some(TileKind::Dirt)
    } else if id == crate::chunk::GRASS as int {
        Some(TileKind::Grass)
    } else if id == crate::chunk::WATER as int {
        Some(TileKind::Water)
    } else if id == LOG as int {
        Some(TileKind::Log)
    } else if id == LEAVES as int {
        Some(TileKind::Leaves)
    } else {
        None
    }
}

/// One slot per possible block id, holding the tile of that id if any.
pub struct TileRegistry {
    handlers: Vec<Option<TileKind>>,
}

impl TileRegistry {
    pub closed spec fn handler(&self, id: u8) -> Option<TileKind> {
        self.handlers@[id as int]
    }

    pub closed spec fn wf(&self) -> bool {
        self.handlers@.len() == 256
    }

    /// The registry with the built-in tiles.
    pub fn new() -> (r: TileRegistry)
        ensures
            r.wf(),
            forall|id: u8| #[trigger] r.handler(id) == default_tile(id as int),
    {
        let mut handlers: Vec<Option<TileKind>> = Vec::new();
        let mut i: usize = 0;
        while i < 256
            invariant
                i <= 256,
                handlers@.len() == i,
                forall|j: int| 0 <= j < i ==> #[trigger] handlers@[j] == default_tile(j),
            decreases 256 - i,
        {
            let tile = if i == crate::chunk::STONE as usize {
                Some(TileKind::Stone)
            } else if i == crate::chunk::DIRT as usize {
                Some(TileKind::Dirt)
            } else if i == crate::chunk::GRASS as usize {
                Some(TileKind::Grass)
            } else if i == crate::chunk::WATER as usize {
                Some(TileKind::Water)
            } else if i == LOG as usize {
                Some(TileKind::Log)
            } else if i == LEAVES as usize {
                Some(TileKind::Leaves)
            } else {
                None
            };
            handlers.push(tile);
            i = i + 1;
        }
        TileRegistry { handlers }
    }

    /// The tile registered for block id `id`.
    pub fn get_handler(&self, id: u8) -> (r: Option<TileKind>)
        requires
            self.wf(),
        ensures
            r == self.handler(id),
    {
        self.handlers[id as usize]
    }

    /// Whether a block with id `id` stops movement: air and unregistered ids
    /// do not.
    pub fn is_solid(&self, id: u8) -> (r: bool)
        requires
            self.wf(),
        ensures
            r == match self.handler(id) {
                Some(t) => t.spec_is_solid(),
                None => false,
            },
    {
        match self.get_handler(id) {
            Some(t) => t.is_solid(),
            None => false,
        }
    }
}

} // verus!
