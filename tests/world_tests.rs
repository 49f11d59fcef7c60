use voxel_world::chunk::{ChunkData, ChunkNoises, ChunkStage, ChunkState, FlatTerrain, TerrainShape};
use voxel_world::coords::{chunk_coord, chunk_key, local_coord};
use voxel_world::neighborhood::Neighborhood;
use voxel_world::notify::ChunkUpdateMessage;
use voxel_world::seed::coord_seed;
use voxel_world::view::WorldView;
use voxel_world::world::World;

fn flat_world() -> World<FlatTerrain> {
    World::new(FlatTerrain { height: 0 })
}

fn formed_blocks(state: &ChunkState) -> Vec<u8> {
    match &state.stage {
        ChunkStage::Formed(_, data) => data.block_ids.clone(),
        _ => panic!("chunk not formed"),
    }
}

#[test]
fn chunk_and_local_coordinates_use_floor_division() {
    assert_eq!(chunk_coord(0), 0);
    assert_eq!(local_coord(0), 0);
    assert_eq!(chunk_coord(31), 0);
    assert_eq!(local_coord(31), 31);
    assert_eq!(chunk_coord(32), 1);
    assert_eq!(local_coord(32), 0);
    assert_eq!(chunk_coord(-1), -1);
    assert_eq!(local_coord(-1), 31);
    assert_eq!(chunk_coord(-32), -1);
    assert_eq!(local_coord(-32), 0);
    assert_eq!(chunk_coord(-33), -2);
    assert_eq!(local_coord(-33), 31);
    assert_eq!(chunk_coord(i32::MIN), -67108864);
    assert_eq!(local_coord(i32::MIN), 0);
    assert_eq!(chunk_coord(i32::MAX), 67108863);
    assert_eq!(local_coord(i32::MAX), 31);
}

#[test]
fn chunk_local_round_trip_on_samples() {
    for x in [-100_000i32, -65, -64, -33, -32, -31, -1, 0, 1, 31, 32, 33, 1000, i32::MIN, i32::MAX] {
        let c = chunk_coord(x) as i64;
        let l = local_coord(x) as i64;
        assert!(l >= 0 && l < 32);
        assert_eq!(c * 32 + l, x as i64);
    }
}

#[test]
fn chunk_keys_are_distinct() {
    assert_ne!(chunk_key(0, 0, 1), chunk_key(0, 1, 0));
    assert_ne!(chunk_key(1, 0, 0), chunk_key(0, 1, 0));
    assert_ne!(chunk_key(0, -1, 0), chunk_key(-1, 0, 0));
    assert_ne!(chunk_key(0, 0, -1), chunk_key(0, -1, i32::MAX));
    assert_eq!(chunk_key(3, -4, 5), chunk_key(3, -4, 5));
}

#[test]
fn coordinate_seeds_depend_on_the_coordinate() {
    assert_eq!(coord_seed(1, 2, 3), coord_seed(1, 2, 3));
    assert_ne!(coord_seed(1, 2, 3), coord_seed(3, 2, 1));
    assert_ne!(coord_seed(0, 0, 0), coord_seed(0, 0, 1));
}

#[test]
fn flat_terrain_gives_every_column_its_height() {
    let t = FlatTerrain { height: -7 };
    let h = t.target_heights(4, 5, 6);
    assert_eq!(h.len(), 1024);
    assert!(h.iter().all(|v| *v == -7));
}

#[test]
fn generation_layers_stone_dirt_grass_air() {
    let noises = ChunkNoises::new(&FlatTerrain { height: 0 }, 0, 0, 0);
    let data = ChunkData::new(0, 0, 0, &noises);
    assert_eq!(data.block_ids.len(), 32768);
    assert_eq!(data.get_block(0, 0, 0), 1);
    assert_eq!(data.get_block(5, 1, 7), 2);
    assert_eq!(data.get_block(5, 2, 7), 2);
    assert_eq!(data.get_block(5, 3, 7), 3);
    assert_eq!(data.get_block(5, 4, 7), 0);
    assert_eq!(data.get_block(31, 31, 31), 0);
    assert_eq!(data.height_map.len(), 1024);
    assert!(data.height_map.iter().all(|h| *h == Some(3)));
}

#[test]
fn generation_under_sea_level_gives_water_and_buried_grass_line() {
    let noises = ChunkNoises::new(&FlatTerrain { height: -10 }, 0, -1, 0);
    let data = ChunkData::new(0, -1, 0, &noises);
    // local y maps to global y - 32
    assert_eq!(data.get_block(0, 22, 0), 1); // -10: stone
    assert_eq!(data.get_block(0, 23, 0), 2); // -9: dirt
    assert_eq!(data.get_block(0, 24, 0), 2); // -8: dirt
    assert_eq!(data.get_block(0, 25, 0), 2); // -7: grass line under water is dirt
    assert_eq!(data.get_block(0, 26, 0), 4); // -6: water
    assert_eq!(data.get_block(0, 31, 0), 4); // -1: water
    assert!(data.height_map.iter().all(|h| h.is_none()));
    let above = ChunkData::new(0, 0, 0, &noises);
    assert_eq!(above.get_block(0, 0, 0), 4); // 0: water at sea level
    assert_eq!(above.get_block(0, 1, 0), 0);
}

#[test]
fn surface_is_recorded_only_inside_the_chunk() {
    let noises = ChunkNoises::new(&FlatTerrain { height: 40 }, 0, 1, 0);
    let data = ChunkData::new(0, 1, 0, &noises);
    assert!(data.height_map.iter().all(|h| *h == Some(11)));
    let lower = ChunkData::new(0, 0, 0, &noises);
    assert!(lower.height_map.iter().all(|h| h.is_none()));
    assert_eq!(lower.get_block(3, 31, 3), 1);
}

#[test]
fn chunk_data_set_then_get() {
    let noises = ChunkNoises::new(&FlatTerrain { height: 0 }, 0, 0, 0);
    let mut data = ChunkData::new(0, 0, 0, &noises);
    data.set_block(1, 2, 3, 9);
    assert_eq!(data.get_block(1, 2, 3), 9);
    assert_eq!(data.get_block(2, 2, 3), 2);
    assert_eq!(data.block_ids[1 + 2 * 32 + 3 * 1024], 9);
}

#[test]
fn ensure_formed_twice_equals_once() {
    let t = FlatTerrain { height: 3 };
    let mut once = ChunkState::new(2, 0, -1);
    once.ensure_formed(&t);
    let mut twice = ChunkState::new(2, 0, -1);
    twice.ensure_formed(&t);
    twice.ensure_formed(&t);
    assert!(once.is_formed());
    assert_eq!(formed_blocks(&once), formed_blocks(&twice));
}

#[test]
fn ensure_formed_keeps_edits() {
    let t = FlatTerrain { height: 3 };
    let mut s = ChunkState::new(0, 0, 0);
    s.set_block(&t, 0, 10, 0, 7);
    s.ensure_formed(&t);
    s.ensure_noised(&t);
    assert_eq!(s.get_block(0, 10, 0), 7);
}

#[test]
fn stages_advance_in_order() {
    let t = FlatTerrain { height: 3 };
    let mut s = ChunkState::new(0, 0, 0);
    assert!(matches!(s.stage, ChunkStage::Empty));
    assert!(!s.is_formed());
    s.ensure_noised(&t);
    assert!(matches!(s.stage, ChunkStage::Noised(_)));
    assert!(!s.is_formed());
    s.ensure_formed(&t);
    assert!(s.is_formed());
}

#[test]
fn same_coordinate_generates_identical_chunks() {
    let t = FlatTerrain { height: 12 };
    let mut a = ChunkState::new(-3, 0, 8);
    let mut b = ChunkState::new(-3, 0, 8);
    a.ensure_formed(&t);
    b.ensure_noised(&t);
    b.ensure_formed(&t);
    match (&a.stage, &b.stage) {
        (ChunkStage::Formed(na, da), ChunkStage::Formed(nb, db)) => {
            assert_eq!(na.target_height, nb.target_height);
            assert_eq!(na.seed, nb.seed);
            assert_eq!(na.seed, coord_seed(-3, 0, 8));
            assert_eq!(da.block_ids, db.block_ids);
            assert_eq!(da.height_map, db.height_map);
        }
        _ => panic!("chunks not formed"),
    }
}

#[test]
fn world_reads_generated_terrain() {
    let mut w = flat_world();
    assert_eq!(w.get_block(5, 0, 5), 1);
    assert_eq!(w.get_block(5, 1, 5), 2);
    assert_eq!(w.get_block(5, 3, 5), 3);
    assert_eq!(w.get_block(5, 4, 5), 0);
    assert_eq!(w.get_block(-40, -50, 70), 1);
    assert_eq!(w.chunks.len(), 2);
}

#[test]
fn world_get_after_set_returns_written_id() {
    let mut w = flat_world();
    w.set_block(10, 20, -30, 6);
    assert_eq!(w.get_block(10, 20, -30), 6);
    assert_eq!(w.get_block(11, 20, -30), 0);
    assert_eq!(w.get_block(10, 19, -30), 0);
    assert_eq!(w.get_block(10, 3, -30), 3);
    w.set_block(10, 20, -30, 0);
    assert_eq!(w.get_block(10, 20, -30), 0);
}

#[test]
fn write_below_sea_level_before_generation_wins_over_terrain() {
    let mut w = flat_world();
    assert!(w.chunks.is_empty());
    w.set_block(0, -1, 0, 5);
    assert_eq!(w.get_block(0, -1, 0), 5);
    assert_eq!(w.get_block(0, -2, 0), 1);
    let state = w.chunks.get(&chunk_key(0, -1, 0)).expect("chunk created");
    assert!(state.is_formed());
    assert_eq!(w.chunks.len(), 1);
}

#[test]
fn set_block_notifies_the_chunk_holding_the_voxel() {
    let mut w = flat_world();
    let mut rx = w.register_chunk_update_listener();
    let mut rx2 = w.register_chunk_update_listener();
    w.set_block(32, 5, -1, 2);
    assert_eq!(rx.try_recv().unwrap(), ChunkUpdateMessage { x: 1, y: 0, z: -1 });
    assert!(rx.try_recv().is_err());
    assert_eq!(rx2.try_recv().unwrap(), ChunkUpdateMessage { x: 1, y: 0, z: -1 });
    w.set_block(31, 0, 0, 2);
    assert_eq!(rx.try_recv().unwrap(), ChunkUpdateMessage { x: 0, y: 0, z: 0 });
    assert!(rx.try_recv().is_err());
}

#[test]
fn late_listener_sees_no_history_and_closed_listener_is_ignored() {
    let mut w = flat_world();
    let rx_closed = w.register_chunk_update_listener();
    drop(rx_closed);
    w.set_block(0, 0, 0, 1);
    let mut late = w.register_chunk_update_listener();
    assert!(late.try_recv().is_err());
    w.set_block(-1, 0, 0, 1);
    assert_eq!(late.try_recv().unwrap(), ChunkUpdateMessage { x: -1, y: 0, z: 0 });
    assert_eq!(ChunkUpdateMessage::for_voxel(-1, -32, 64), ChunkUpdateMessage { x: -1, y: -1, z: 2 });
}

#[test]
fn ensure_chunks_creates_every_chunk_of_the_box_once() {
    let mut w = flat_world();
    w.ensure_chunk(0, 0, 0);
    w.set_block(1, 1, 1, 9);
    w.ensure_chunk(5, 5, 5);
    let coords: Vec<(i32, i32, i32, bool)> = w
        .ensure_chunks(-1, 1, 0, 0, -1, 0)
        .iter()
        .map(|c| (c.x, c.y, c.z, c.is_formed()))
        .collect();
    assert_eq!(
        coords,
        vec![
            (-1, 0, -1, false),
            (-1, 0, 0, false),
            (0, 0, -1, false),
            (0, 0, 0, true),
            (1, 0, -1, false),
            (1, 0, 0, false),
        ]
    );
    assert_eq!(w.chunks.len(), 7);
    for x in -1..=1 {
        for z in -1..=0 {
            assert!(w.chunks.contains_key(&chunk_key(x, 0, z)));
        }
    }
    assert!(!w.chunks.contains_key(&chunk_key(2, 0, 0)));
    assert_eq!(w.get_block(1, 1, 1), 9);
    assert_eq!(w.ensure_chunks(-1, 1, 0, 0, -1, 0).len(), 6);
    assert_eq!(w.chunks.len(), 7);
}

#[test]
fn ensure_chunks_of_an_empty_box_does_nothing() {
    let mut w = flat_world();
    assert!(w.ensure_chunks(1, 0, 0, 0, 0, 0).is_empty());
    assert!(w.chunks.is_empty());
}

#[test]
fn ensure_chunk_hands_out_an_empty_chunk_once() {
    let mut w = flat_world();
    let c = w.ensure_chunk(3, -4, 5);
    assert_eq!((c.x, c.y, c.z), (3, -4, 5));
    assert!(matches!(c.stage, ChunkStage::Empty));
    w.set_block(96, -128, 160, 2);
    let again = w.ensure_chunk(3, -4, 5);
    assert!(again.is_formed());
    assert_eq!(w.chunks.len(), 1);
}

#[test]
fn view_of_an_empty_extent_holds_nothing() {
    let mut w = flat_world();
    let view = WorldView::from_range(&mut w, 5, 4, 0, 3, 0, 3);
    assert_eq!(view.size, (0, 4, 4));
    assert!(view.data.is_empty());
    assert!(!view.contains(5, 0, 0));
    assert_eq!(view.get_block(5, 0, 0), 0);
    assert!(view.iter_blocks().is_empty());
}

#[test]
fn get_chunk_forms_the_chunk() {
    let mut w = flat_world();
    let c = w.get_chunk(2, -1, 3);
    assert!(c.is_formed());
    assert_eq!((c.x, c.y, c.z), (2, -1, 3));
}

#[test]
fn view_matches_world_inside_and_is_air_outside() {
    let mut w = flat_world();
    w.set_block(-1, 2, 0, 7);
    w.set_block(31, 0, 32, 8);
    let view = WorldView::from_range(&mut w, -3, 33, -1, 4, -2, 33);
    assert_eq!(view.origin, (-3, -1, -2));
    assert_eq!(view.size, (37, 6, 36));
    assert_eq!(view.data.len(), 37 * 6 * 36);
    for x in -3..=33 {
        for y in -1..=4 {
            for z in [-2, -1, 0, 1, 31, 32, 33] {
                assert_eq!(view.get_block(x, y, z), w.get_block(x, y, z));
            }
        }
    }
    assert_eq!(view.get_block(-1, 2, 0), 7);
    assert_eq!(view.get_block(31, 0, 32), 8);
    assert_eq!(view.get_block(-4, 0, 0), 0);
    assert_eq!(view.get_block(0, -2, 0), 0);
    assert_eq!(view.get_block(0, 0, 34), 0);
    assert_eq!(view.get_block(i32::MIN, i32::MAX, 0), 0);
}

#[test]
fn view_is_a_snapshot() {
    let mut w = flat_world();
    let view = WorldView::from_range(&mut w, 0, 1, 0, 1, 0, 1);
    w.set_block(0, 0, 0, 9);
    assert_eq!(view.get_block(0, 0, 0), 1);
    assert_eq!(w.get_block(0, 0, 0), 9);
}

#[test]
fn view_contains_and_bounds() {
    let mut w = flat_world();
    let view = WorldView::from_range(&mut w, -2, 2, 0, 0, 5, 6);
    assert!(view.contains(-2, 0, 5));
    assert!(view.contains(2, 0, 6));
    assert!(!view.contains(3, 0, 5));
    assert!(!view.contains(0, 1, 5));
    assert!(!view.contains(0, 0, 4));
    assert_eq!(view.bounds(), ((-2, 0, 5), (2, 0, 6)));
}

#[test]
fn view_iterates_x_then_y_then_z() {
    let mut w = flat_world();
    w.set_block(1, 3, 0, 9);
    let view = WorldView::from_range(&mut w, 0, 1, 3, 4, 0, 1);
    let all = view.iter_blocks();
    assert_eq!(
        all,
        vec![
            (0, 3, 0, 3),
            (0, 3, 1, 3),
            (0, 4, 0, 0),
            (0, 4, 1, 0),
            (1, 3, 0, 9),
            (1, 3, 1, 3),
            (1, 4, 0, 0),
            (1, 4, 1, 0),
        ]
    );
}

#[test]
fn view_with_non_positive_extent_iterates_nothing() {
    let view = WorldView { data: Vec::new(), origin: (0, 0, 0), size: (0, 2, 2) };
    assert!(view.iter_blocks().is_empty());
    assert_eq!(view.get_block(0, 0, 0), 0);
}

#[test]
fn view_of_one_voxel_at_the_coordinate_limit() {
    let mut w = flat_world();
    let view = WorldView::from_range(&mut w, i32::MAX, i32::MAX, 0, 0, i32::MIN, i32::MIN);
    assert_eq!(view.size, (1, 1, 1));
    assert_eq!(view.get_block(i32::MAX, 0, i32::MIN), 1);
    assert_eq!(view.bounds(), ((i32::MAX, 0, i32::MIN), (i32::MAX, 0, i32::MIN)));
}

#[test]
fn neighborhood_write_reaches_the_neighbor_chunk() {
    let mut w = flat_world();
    let mut rx = w.register_chunk_update_listener();
    {
        let mut n = Neighborhood::new(&mut w, 0, 0, 0, 1);
        n.set_block(-1, 0, 0, 6);
        assert_eq!(n.get_block(-1, 0, 0), 6);
        assert_eq!(n.get_block(0, 0, 0), 1);
        let c = n.get_chunk_immutable(-1, 0, 0);
        assert_eq!((c.x, c.y, c.z), (-1, 0, 0));
        assert_eq!(c.get_block(31, 0, 0), 6);
    }
    assert_eq!(w.chunks.len(), 27);
    assert_eq!(w.get_block(-1, 0, 0), 6);
    assert!(rx.try_recv().is_err());
}

#[test]
fn neighborhood_reaches_the_far_corner_of_its_cube() {
    let mut w = flat_world();
    let mut n = Neighborhood::new(&mut w, 0, 0, 0, 1);
    n.set_block(63, 63, -32, 4);
    assert_eq!(n.get_block(63, 63, -32), 4);
    drop(n);
    assert_eq!(w.get_block(63, 63, -32), 4);
}
