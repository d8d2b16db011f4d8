use voxel_terrain::blocs::{Bloc, BlocPos, BlocPos2d, Blocs, Col, ColPos, Realm, MAX_GEN_HEIGHT};

const OVERWORLD: Realm = Realm(0);

fn at(x: i32, y: i32, z: i32) -> BlocPos {
    BlocPos { x, y, z, realm: OVERWORLD }
}

fn line(x: i32, z: i32) -> BlocPos2d {
    BlocPos2d { x, z, realm: OVERWORLD }
}

#[test]
fn untouched_world_is_empty() {
    let world = Blocs::new();
    for &(x, y, z) in &[(0, 0, 0), (5, 17, 9), (-1, 3, -200), (i32::MAX, 199, i32::MIN)] {
        assert_eq!(world.get_block(at(x, y, z)), Bloc::Air);
        assert_eq!(world.top_block(line(x, z)), (Bloc::Air, 0));
    }
}

#[test]
fn untouched_chunk_beside_a_written_one_is_empty() {
    let mut world = Blocs::new();
    world.set_bloc(at(0, 10, 0), Bloc::Stone);
    assert_eq!(world.get_block(at(32, 10, 0)), Bloc::Air);
    assert_eq!(world.get_block(at(-1, 10, 0)), Bloc::Air);
    assert_eq!(world.top_block(line(0, 32)), (Bloc::Air, 0));
    assert!(!world.has_col(ColPos { x: 1, z: 0, realm: OVERWORLD }));
}

#[test]
fn set_then_get() {
    let mut world = Blocs::new();
    world.set_bloc(at(3, 12, 40), Bloc::Granite);
    assert_eq!(world.get_block(at(3, 12, 40)), Bloc::Granite);
    assert_eq!(world.get_block(at(3, 11, 40)), Bloc::Air);
    assert_eq!(world.get_block(at(3, 13, 40)), Bloc::Air);
    assert_eq!(world.get_block(at(4, 12, 40)), Bloc::Air);
    assert_eq!(world.get_block(at(3, 12, 41)), Bloc::Air);
    world.set_bloc(at(3, 12, 40), Bloc::Sand);
    assert_eq!(world.get_block(at(3, 12, 40)), Bloc::Sand);
}

#[test]
fn set_makes_the_column() {
    let mut world = Blocs::new();
    let col = ColPos { x: 0, z: 1, realm: OVERWORLD };
    assert!(!world.has_col(col));
    world.set_bloc(at(3, 12, 40), Bloc::Air);
    assert!(world.has_col(col));
    assert!(!world.has_col(ColPos { x: 1, z: 0, realm: OVERWORLD }));
}

#[test]
fn negative_coordinates_round_down() {
    let pos = at(-1, 7, -33);
    let (col, coled) = pos.split();
    assert_eq!(col, ColPos { x: -1, z: -2, realm: OVERWORLD });
    assert_eq!(coled, (31, 7, 31));
    assert_eq!(BlocPos::in_col(col, coled), pos);

    let (col, coled) = line(-32, 63).split();
    assert_eq!(col, ColPos { x: -1, z: 1, realm: OVERWORLD });
    assert_eq!(coled, (0, 31));
    assert_eq!(BlocPos2d::in_col(col, coled), line(-32, 63));

    let (col, coled) = at(i32::MIN, 0, i32::MAX).split();
    assert_eq!(col, ColPos { x: -67_108_864, z: 67_108_863, realm: OVERWORLD });
    assert_eq!(coled, (0, 0, 31));

    let mut world = Blocs::new();
    world.set_bloc(pos, Bloc::Ice);
    assert_eq!(world.get_block(pos), Bloc::Ice);
    assert_eq!(world.get_block(at(31, 7, 31)), Bloc::Air);
    assert!(world.has_col(ColPos { x: -1, z: -2, realm: OVERWORLD }));
    assert!(!world.has_col(ColPos { x: 0, z: 0, realm: OVERWORLD }));
}

#[test]
fn realms_do_not_share_voxels() {
    let mut world = Blocs::new();
    let here = BlocPos { x: 1, y: 2, z: 3, realm: Realm(0) };
    let there = BlocPos { x: 1, y: 2, z: 3, realm: Realm(1) };
    world.set_bloc(here, Bloc::Mud);
    assert_eq!(world.get_block(here), Bloc::Mud);
    assert_eq!(world.get_block(there), Bloc::Air);
    world.set_bloc(there, Bloc::Snow);
    assert_eq!(world.get_block(here), Bloc::Mud);
    assert_eq!(world.get_block(there), Bloc::Snow);
}

#[test]
fn set_if_empty_keeps_what_is_there() {
    let mut world = Blocs::new();
    world.set_bloc(at(8, 20, 8), Bloc::Stone);
    world.set_if_empty(at(8, 20, 8), Bloc::Leaves);
    assert_eq!(world.get_block(at(8, 20, 8)), Bloc::Stone);
}

#[test]
fn set_if_empty_writes_on_empty() {
    let mut world = Blocs::new();
    world.set_if_empty(at(8, 20, 8), Bloc::Leaves);
    assert_eq!(world.get_block(at(8, 20, 8)), Bloc::Leaves);
    world.set_bloc(at(8, 21, 8), Bloc::Air);
    world.set_if_empty(at(8, 21, 8), Bloc::Log);
    assert_eq!(world.get_block(at(8, 21, 8)), Bloc::Log);
    world.set_if_empty(at(8, 21, 8), Bloc::Leaves);
    assert_eq!(world.get_block(at(8, 21, 8)), Bloc::Log);
}

#[test]
fn heights_outside_the_column_hold_nothing() {
    let mut world = Blocs::new();
    let top = MAX_GEN_HEIGHT as i32;
    world.set_bloc(at(0, -1, 0), Bloc::Stone);
    world.set_bloc(at(0, top, 0), Bloc::Stone);
    world.set_if_empty(at(0, i32::MIN, 0), Bloc::Stone);
    world.set_if_empty(at(0, i32::MAX, 0), Bloc::Stone);
    assert_eq!(world.get_block(at(0, -1, 0)), Bloc::Air);
    assert_eq!(world.get_block(at(0, top, 0)), Bloc::Air);
    assert_eq!(world.get_block(at(0, 0, 0)), Bloc::Air);
    assert_eq!(world.get_block(at(0, top - 1, 0)), Bloc::Air);
    assert_eq!(world.top_block(line(0, 0)), (Bloc::Air, 0));
    world.set_bloc(at(0, top - 1, 0), Bloc::Snow);
    assert_eq!(world.get_block(at(0, top - 1, 0)), Bloc::Snow);
    assert_eq!(world.top_block(line(0, 0)), (Bloc::Snow, top - 1));
}

#[test]
fn vertical_run_of_five_from_height_ten() {
    let mut world = Blocs::new();
    let col = ColPos { x: 0, z: 0, realm: OVERWORLD };
    world.set_yrange(col, (4, 9), 10, 5, Bloc::Grass);
    for y in 0..MAX_GEN_HEIGHT as i32 {
        let expected = if (6..=10).contains(&y) { Bloc::Grass } else { Bloc::Air };
        assert_eq!(world.get_block(at(4, y, 9)), expected, "height {}", y);
    }
    for y in 0..16 {
        assert_eq!(world.get_block(at(5, y, 9)), Bloc::Air);
        assert_eq!(world.get_block(at(4, y, 8)), Bloc::Air);
        assert_eq!(world.get_block(at(4, y, 10)), Bloc::Air);
        assert_eq!(world.get_block(at(3, y, 9)), Bloc::Air);
    }
    assert_eq!(world.top_block(line(4, 9)), (Bloc::Grass, 10));
}

#[test]
fn vertical_run_overwrites() {
    let mut world = Blocs::new();
    let col = ColPos { x: -1, z: 2, realm: OVERWORLD };
    world.set_bloc(at(-32, 8, 64), Bloc::Stone);
    world.set_bloc(at(-32, 5, 64), Bloc::Stone);
    world.set_yrange(col, (0, 0), 10, 5, Bloc::Sand);
    assert_eq!(world.get_block(at(-32, 8, 64)), Bloc::Sand);
    assert_eq!(world.get_block(at(-32, 5, 64)), Bloc::Stone);
    assert_eq!(world.get_block(at(-32, 6, 64)), Bloc::Sand);
    assert_eq!(world.get_block(at(-32, 11, 64)), Bloc::Air);
}

#[test]
fn vertical_run_is_cut_at_the_ends_of_the_column() {
    let mut world = Blocs::new();
    let col = ColPos { x: 0, z: 0, realm: OVERWORLD };
    let top = MAX_GEN_HEIGHT as i32;
    world.set_yrange(col, (0, 0), 2, 5, Bloc::Sand);
    assert_eq!(world.get_block(at(0, 0, 0)), Bloc::Sand);
    assert_eq!(world.get_block(at(0, 2, 0)), Bloc::Sand);
    assert_eq!(world.get_block(at(0, 3, 0)), Bloc::Air);
    world.set_yrange(col, (1, 0), top, 5, Bloc::Snow);
    assert_eq!(world.get_block(at(1, top - 1, 0)), Bloc::Snow);
    assert_eq!(world.get_block(at(1, top - 4, 0)), Bloc::Snow);
    assert_eq!(world.get_block(at(1, top - 5, 0)), Bloc::Air);
    world.set_yrange(col, (2, 0), -1, 5, Bloc::Snow);
    world.set_yrange(col, (2, 0), top + 5, 5, Bloc::Snow);
    world.set_yrange(col, (2, 0), 50, 0, Bloc::Snow);
    assert_eq!(world.top_block(line(2, 0)), (Bloc::Air, 0));
    world.set_yrange(col, (3, 0), i32::MAX, usize::MAX, Bloc::Stone);
    assert_eq!(world.get_block(at(3, 0, 0)), Bloc::Stone);
    assert_eq!(world.get_block(at(3, top - 1, 0)), Bloc::Stone);
}

#[test]
fn top_is_the_highest_voxel() {
    let mut world = Blocs::new();
    world.set_bloc(at(70, 3, -5), Bloc::Stone);
    assert_eq!(world.top_block(line(70, -5)), (Bloc::Stone, 3));
    world.set_bloc(at(70, 90, -5), Bloc::Leaves);
    assert_eq!(world.top_block(line(70, -5)), (Bloc::Leaves, 90));
    world.set_bloc(at(70, 90, -5), Bloc::Air);
    assert_eq!(world.top_block(line(70, -5)), (Bloc::Stone, 3));
    world.set_bloc(at(70, 0, -5), Bloc::Dirt);
    world.set_bloc(at(70, 3, -5), Bloc::Air);
    assert_eq!(world.top_block(line(70, -5)), (Bloc::Dirt, 0));
    assert_eq!(world.top_block(line(71, -5)), (Bloc::Air, 0));
}

#[test]
fn column_alone() {
    let mut col = Col::new();
    assert_eq!(col.get((0, 0, 0)), Bloc::Air);
    assert_eq!(col.top((31, 31)), (Bloc::Air, 0));
    col.set((31, 199, 31), Bloc::Ice);
    col.set((0, 0, 0), Bloc::Mud);
    assert_eq!(col.get((31, 199, 31)), Bloc::Ice);
    assert_eq!(col.get((0, 0, 0)), Bloc::Mud);
    assert_eq!(col.get((0, 1, 0)), Bloc::Air);
    assert_eq!(col.get((0, 0, 1)), Bloc::Air);
    assert_eq!(col.get((1, 0, 0)), Bloc::Air);
    col.set_if_empty((0, 0, 0), Bloc::Sand);
    col.set_if_empty((0, 1, 0), Bloc::Sand);
    assert_eq!(col.get((0, 0, 0)), Bloc::Mud);
    assert_eq!(col.get((0, 1, 0)), Bloc::Sand);
    assert_eq!(col.top((0, 0)), (Bloc::Sand, 1));
    col.set_yrange((7, 7), 100, 3, Bloc::Podzol);
    assert_eq!(col.get((7, 97, 7)), Bloc::Air);
    assert_eq!(col.get((7, 98, 7)), Bloc::Podzol);
    assert_eq!(col.get((7, 100, 7)), Bloc::Podzol);
    assert_eq!(col.get((7, 101, 7)), Bloc::Air);
}

#[test]
fn the_default_voxel_is_air() {
    assert_eq!(Bloc::default(), Bloc::Air);
    assert!(Bloc::Air.is_empty());
    assert!(!Bloc::Dirt.is_empty());
}

#[test]
fn into_splits_a_position() {
    let (col, coled): (ColPos, (usize, i32, usize)) = at(-1, 7, -33).into();
    assert_eq!(col, ColPos { x: -1, z: -2, realm: OVERWORLD });
    assert_eq!(coled, (31, 7, 31));
    let (col, coled): (ColPos, (usize, usize)) = line(64, 5).into();
    assert_eq!(col, ColPos { x: 2, z: 0, realm: OVERWORLD });
    assert_eq!(coled, (0, 5));
}
