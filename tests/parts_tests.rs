use std::time::Duration;
use voxel_world::akasha::Akasha;
use voxel_world::seed::coord_seed;
use voxel_world::chunk::FlatTerrain;
use voxel_world::coords::chunk_key;
use voxel_world::decoration::{locus_into_rng, locus_into_seed, ChunkDecorations, Tree, WorldPos};
use voxel_world::deferred::QueuedItem;
use voxel_world::physics::{PhysicsEnvironment, VoxelCollisionChunk};
use voxel_world::tile::{
    DirtTile, GrassTile, LeavesTile, LogTile, RenderLayer, StoneTile, Tile, TileFace, TileKind, TileRegistry,
    WaterTile,
};
use voxel_world::world::World;

fn pos(x: i32, y: i32, z: i32) -> WorldPos {
    WorldPos { chunk_x: 0, chunk_y: 0, chunk_z: 0, x, y, z }
}

#[test]
fn ready_item_gives_the_same_value_every_time() {
    let mut item = QueuedItem::Ready(5u32);
    assert_eq!(item.get(), Some(&mut 5));
    assert_eq!(item.get(), Some(&mut 5));
    assert!(matches!(item, QueuedItem::Ready(5)));
    if let Some(v) = item.get() {
        *v += 1;
    }
    assert_eq!(item.get(), Some(&mut 6));
}

#[test]
fn settle_maps_each_join_outcome() {
    let ready: QueuedItem<u8> = QueuedItem::settle(Ok(Ok(2)));
    assert!(matches!(ready, QueuedItem::Ready(2)));
    let mut failed: QueuedItem<u8> = QueuedItem::Failed;
    assert_eq!(failed.get(), None);
    assert!(matches!(failed, QueuedItem::Failed));
}

#[test]
fn pending_item_is_not_ready_until_its_work_finishes() {
    let rt = tokio::runtime::Builder::new_multi_thread().worker_threads(1).enable_time().build().unwrap();
    let (tx, rx) = tokio::sync::oneshot::channel::<u32>();
    let mut item = QueuedItem::enqueue(rt.handle(), async move { rx.await.unwrap() * 2 });
    assert!(matches!(item, QueuedItem::Generating(_)));
    assert_eq!(item.get(), None);
    assert_eq!(item.get(), None);
    assert!(matches!(item, QueuedItem::Generating(_)));
    tx.send(21).unwrap();
    let mut value = None;
    for _ in 0..200 {
        if let Some(v) = item.get() {
            value = Some(*v);
            break;
        }
        rt.block_on(async { tokio::time::sleep(Duration::from_millis(10)).await });
    }
    assert_eq!(value, Some(42));
    assert_eq!(item.get(), Some(&mut 42));
    assert_eq!(item.get(), Some(&mut 42));
    assert!(matches!(item, QueuedItem::Ready(42)));
}

#[test]
fn failed_work_marks_the_item_failed() {
    let rt = tokio::runtime::Builder::new_multi_thread().worker_threads(1).enable_time().build().unwrap();
    let mut item: QueuedItem<u32> = QueuedItem::enqueue(rt.handle(), async { panic!("background work failed") });
    for _ in 0..200 {
        let _ = item.get();
        if matches!(item, QueuedItem::Failed) {
            break;
        }
        rt.block_on(async { tokio::time::sleep(Duration::from_millis(10)).await });
    }
    assert!(matches!(item, QueuedItem::Failed));
    assert_eq!(item.get(), None);
    assert!(matches!(item, QueuedItem::Failed));
}

#[test]
fn registry_holds_the_built_in_tiles() {
    let r = TileRegistry::new();
    assert_eq!(r.get_handler(0), None);
    assert_eq!(r.get_handler(1), Some(TileKind::Stone));
    assert_eq!(r.get_handler(2), Some(TileKind::Dirt));
    assert_eq!(r.get_handler(3), Some(TileKind::Grass));
    assert_eq!(r.get_handler(4), Some(TileKind::Water));
    assert_eq!(r.get_handler(5), Some(TileKind::Log));
    assert_eq!(r.get_handler(6), Some(TileKind::Leaves));
    assert_eq!(r.get_handler(7), None);
    assert_eq!(r.get_handler(255), None);
    assert!(!r.is_solid(0));
    assert!(r.is_solid(1));
    assert!(!r.is_solid(4));
    assert!(!r.is_solid(200));
}

#[test]
fn tiles_answer_solidity_and_occlusion() {
    assert!(StoneTile.is_solid() && DirtTile.is_solid() && GrassTile.is_solid());
    assert!(LogTile.is_solid() && LeavesTile.is_solid());
    assert!(!WaterTile.is_solid());
    assert!(StoneTile.occludes_geometry(RenderLayer::Opaque, 4));
    assert!(WaterTile.occludes_geometry(RenderLayer::Opaque, 4));
    assert!(!WaterTile.occludes_geometry(RenderLayer::Opaque, 1));
    assert!(LeavesTile.occludes_geometry(RenderLayer::Opaque, 6));
    assert!(!LeavesTile.occludes_geometry(RenderLayer::Opaque, 1));
    assert!(WaterTile.is_dual_sided() && LeavesTile.is_dual_sided());
    assert!(!StoneTile.is_dual_sided() && !GrassTile.is_dual_sided());
    assert_eq!(TileKind::Water.is_solid(), false);
    assert!(TileKind::Leaves.occludes_geometry(RenderLayer::Opaque, 6));
}

#[test]
fn tiles_give_materials_per_face() {
    assert_eq!(StoneTile.get_material_for_face(TileFace::Top, 0), [1, 0]);
    assert_eq!(DirtTile.get_material_for_face(TileFace::East, 0), [2, 0]);
    assert_eq!(GrassTile.get_material_for_face(TileFace::Top, 0), [0, 0]);
    assert_eq!(GrassTile.get_material_for_face(TileFace::Bottom, 0), [2, 0]);
    assert_eq!(GrassTile.get_material_for_face(TileFace::North, 0), [3, 0]);
    assert_eq!(WaterTile.get_material_for_face(TileFace::South, 9), [15, 13]);
    assert_eq!(LogTile.get_material_for_face(TileFace::Top, 0), [5, 1]);
    assert_eq!(LogTile.get_material_for_face(TileFace::Bottom, 0), [5, 1]);
    assert_eq!(LogTile.get_material_for_face(TileFace::West, 0), [4, 1]);
    assert_eq!(LeavesTile.get_material_for_face(TileFace::Top, 0), [4, 3]);
    assert_eq!(TileKind::Grass.get_material_for_face(TileFace::West, 0), [3, 0]);
}

#[test]
fn trees_stand_at_their_locus_with_bounded_height() {
    for i in 0..50 {
        let t = Tree::from_locus(pos(i, 2 * i, -i));
        assert_eq!((t.tree_x, t.tree_y, t.tree_z), (i, 2 * i, -i));
        assert!(t.tree_height >= 2 && t.tree_height <= 8);
    }
}

#[test]
fn trees_are_determined_by_their_locus() {
    let a = Tree::from_locus(pos(3, 4, 5));
    let b = Tree::from_locus(pos(3, 4, 5));
    assert_eq!(a, b);
    let mut rng = locus_into_rng(&pos(3, 4, 5));
    assert_eq!(Tree::from_rng(&mut rng, &pos(3, 4, 5)), a);
    let heights: Vec<u32> = (0..40).map(|i| Tree::from_locus(pos(i, 0, 0)).tree_height).collect();
    assert!(heights.iter().any(|h| *h != heights[0]));
    let d = ChunkDecorations { trees: vec![a, b] };
    assert_eq!(d.trees.len(), 2);
}

#[test]
fn locus_seeds_depend_on_every_field() {
    let base = pos(1, 2, 3);
    assert_eq!(locus_into_seed(&base), locus_into_seed(&pos(1, 2, 3)));
    assert_ne!(locus_into_seed(&base), locus_into_seed(&pos(1, 2, 4)));
    let moved = WorldPos { chunk_x: 1, ..base };
    assert_ne!(locus_into_seed(&base), locus_into_seed(&moved));
}

#[test]
fn collision_mask_marks_solid_voxels() {
    let mut w = World::new(FlatTerrain { height: -6 });
    w.set_block(5, -20, 5, 0);
    w.set_block(6, 0, 6, 1);
    let registry = TileRegistry::new();
    let mask = VoxelCollisionChunk::from_world(&mut w, &registry, 0, -1, 0);
    assert_eq!(mask.is_solid.len(), 32768);
    // local y 31 is global -1, water
    assert!(!mask.is_solid[0 + 31 * 32]);
    // global -3 is the buried grass line, dirt
    assert!(mask.is_solid[29 * 32]);
    // global -6 is stone
    assert!(mask.is_solid[26 * 32]);
    // global -20 at (5, 5) was emptied
    assert!(!mask.is_solid[5 + 12 * 32 + 5 * 1024]);
    let upper = VoxelCollisionChunk::from_world(&mut w, &registry, 0, 0, 0);
    assert!(upper.is_solid[6 + 6 * 1024]);
    assert!(!upper.is_solid[7 + 6 * 1024]);
}

#[test]
fn solid_at_consults_ready_masks_and_defaults_to_solid() {
    let mut w = World::new(FlatTerrain { height: 0 });
    let registry = TileRegistry::new();
    let mask = VoxelCollisionChunk::from_world(&mut w, &registry, -1, 0, 0);
    let mut env = PhysicsEnvironment::with_registry(TileRegistry::new());
    assert!(env.solid_at(-5, 10, 0));
    env.insert_chunk((-1, 0, 0), QueuedItem::Ready(mask));
    assert!(!env.solid_at(-5, 10, 0));
    assert!(env.solid_at(-5, 0, 0));
    assert!(env.solid_at(5, 10, 0));
    env.insert_chunk((0, 0, 0), QueuedItem::Failed);
    assert!(env.solid_at(5, 10, 0));
    env.discard_chunk((-1, 0, 0));
    assert!(env.solid_at(-5, 10, 0));
    assert!(!env.collision_chunks.contains_key(&chunk_key(-1, 0, 0)));
}

#[test]
fn akasha_creates_chunks_once_with_their_height_field() {
    let mut a = Akasha::new(FlatTerrain { height: 4 });
    {
        let c = a.ensure_chunk(1, -2, 3);
        assert_eq!(c.noises.target_height.len(), 1024);
        assert!(c.noises.target_height.iter().all(|h| *h == 4));
        assert_eq!(c.noises.seed, coord_seed(1, -2, 3));
        assert!(c.decorations.trees.is_empty());
    }
    a.chunks.get_mut(&chunk_key(1, -2, 3)).unwrap().decorations.trees.push(Tree::from_locus(pos(0, 0, 0)));
    let again = a.ensure_chunk(1, -2, 3);
    assert_eq!(again.decorations.trees.len(), 1);
    assert_eq!(a.chunks.len(), 1);
}
