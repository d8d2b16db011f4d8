use noise_algebra::NoiseSource;
use voxel_terrain::blocs::{Bloc, BlocPos2d, Blocs, ColPos, Realm, Tree, MAX_GEN_HEIGHT};
use voxel_terrain::gen::{pos_to_range, Earth, Fields, Soils, Trees, CHUNK_S2, UNIT, WATER_H};

const OVERWORLD: Realm = Realm(0);

fn fixed(value: f32) -> i32 {
    (value as f64 * UNIT as f64).floor() as i32
}

/// The fields of a column from layered noise: elevation, temperature, humidity and
/// precipitation, land being carved out at the given share.
fn noise_fields(seed: i32, land_ratio: f32, col: ColPos) -> Fields {
    let mut n = NoiseSource::new(pos_to_range(col), seed, 1);
    let cont = (n.simplex(0.5) + n.simplex(2.) * 0.4).normalize();
    let land = (cont.clone() + n.simplex(9.) * 0.1).normalize().threshold(1. - land_ratio);
    let ocean = !cont;
    let ys = n.constant(0.009) + land.clone() * 0.3 + land * n.simplex(1.).powi(3) * 0.4;
    let ts = (n.simplex(0.2) + n.simplex(0.6) * 0.3).normalize();
    let hs = (!ts.clone() * 0.5 + ocean + n.simplex(0.5)).normalize();
    let ph = (n.simplex(0.3) + n.simplex(0.9) * 0.2).normalize();
    Fields::new(
        ys.iter().map(|y| fixed(*y)).collect(),
        ts.iter().map(|t| fixed(*t)).collect(),
        hs.iter().map(|h| fixed(*h)).collect(),
        ph.iter().map(|p| fixed(*p)).collect(),
    )
    .unwrap()
}

fn earth(seed: u32) -> Earth {
    let mut soils = Soils::new();
    soils.push([0, 0], Bloc::Snow);
    soils.push([1_000_000, 0], Bloc::Sand);
    soils.push([500_000, 500_000], Bloc::Grass);
    soils.push([500_000, 1_000_000], Bloc::Mud);
    let mut trees = Trees::new();
    trees.push([500_000, 500_000, 500_000, 500_000], Tree::Oak);
    trees.push([900_000, 100_000, 0, 400_000], Tree::Cactus);
    Earth::new(seed, Vec::new(), soils, trees)
}

fn land_cells(fields: &Fields) -> usize {
    (0..CHUNK_S2).filter(|&i| fields.height(i) >= WATER_H).count()
}

#[test]
fn seed_42_twice_gives_the_same_column() {
    let col = ColPos { x: 0, z: 0, realm: OVERWORLD };
    let e = earth(42);
    let ratio = e.land_ratio() as f32 / UNIT as f32;
    let mut first = Blocs::new();
    let mut second = Blocs::new();
    let planted_first = e.gen(&mut first, col, &noise_fields(e.get_seed(), ratio, col));
    let planted_second = e.gen(&mut second, col, &noise_fields(e.get_seed(), ratio, col));
    let cell = BlocPos2d { x: 0, z: 0, realm: OVERWORLD };
    assert_eq!(first.top_block(cell), second.top_block(cell));
    assert_ne!(first.top_block(cell).0, Bloc::Air);
    assert_eq!(planted_first, planted_second);
    for x in 0..32 {
        for z in 0..32 {
            let cell = BlocPos2d { x, z, realm: OVERWORLD };
            assert_eq!(first.top_block(cell), second.top_block(cell));
        }
    }
}

#[test]
fn heights_from_noise_are_in_bounds() {
    for seed in [0, 1, 42, -7] {
        for &(x, z) in &[(0, 0), (3, -2), (-40, 17)] {
            let fields = noise_fields(seed, 0.4, ColPos { x, z, realm: OVERWORLD });
            for i in 0..CHUNK_S2 {
                let h = fields.height(i);
                assert!(0 <= h && h <= MAX_GEN_HEIGHT as i32);
            }
        }
    }
}

#[test]
fn more_land_ratio_gives_no_less_land() {
    for seed in [1, 42, 1234] {
        let mut little = 0;
        let mut much = 0;
        for x in -2..3 {
            for z in -2..3 {
                let col = ColPos { x, z, realm: OVERWORLD };
                little += land_cells(&noise_fields(seed, 0.2, col));
                much += land_cells(&noise_fields(seed, 0.8, col));
            }
        }
        assert!(little <= much, "seed {}: {} cells of land, then {}", seed, little, much);
    }
}

#[test]
fn vegetation_from_noise_stands_on_land() {
    for x in -3..4 {
        let col = ColPos { x, z: 1 - x, realm: OVERWORLD };
        let e = earth(42);
        let fields = noise_fields(42, 0.4, col);
        let mut world = Blocs::new();
        for planting in e.gen(&mut world, col, &fields) {
            assert!(planting.pos.y >= WATER_H);
            assert_eq!(planting.pos.split().0, col);
            let under = BlocPos2d { x: planting.pos.x, z: planting.pos.z, realm: OVERWORLD };
            assert_eq!(world.top_block(under).1, planting.pos.y);
        }
    }
}
