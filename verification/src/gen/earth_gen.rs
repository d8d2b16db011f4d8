use super::fields::{field_index, Fields, CHUNK_S2, UNIT};
use super::table::{
    dist_sq, floor_sqrt, lemma_dist_sq_bounds, lemma_floor_sqrt_exists, nearest, Condition,
    ConditionTable,
};
use crate::blocs::bloc::Bloc;
use crate::blocs::col::{cell_index, in_col, COL_LEN};
use crate::blocs::cols::{cells_of, cols_full, world_get, Blocs};
use crate::blocs::pos::{BlocPos, BlocPos2d, ColPos, CHUNK_S1, CHUNK_S1I, MAX_GEN_HEIGHT};
use crate::blocs::tree::Tree;
use std::ops::RangeInclusive;
use vstd::prelude::*;

verus! {

/// Height of the water: no vegetation is planted on terrain below it.
pub const WATER_H: i32 = 60;

/// Number of voxels of soil that are laid from the terrain height downwards.
pub const SOIL_DEPTH: usize = 5;

/// The share of land that is aimed at where the configuration names none, in fixed point.
pub const DEFAULT_LAND_RATIO: i32 = 400_000;

/// What one step of height jitter adds to the spread of a planting: a tenth, in fixed point.
pub const JITTER_STEP: u64 = 100_000;

/// Which soil lies where: conditions are a temperature and a humidity.
pub type Soils = ConditionTable<Bloc, 2>;

/// Which vegetation grows where: conditions are a temperature, a humidity, a
/// precipitation and a height as a share of `MAX_GEN_HEIGHT`.
pub type Trees = ConditionTable<Tree, 4>;

/// A request to grow vegetation: what, where, and the two numbers that shape it.
#[derive(Clone, Copy, Debug, PartialEq, Eq, Structural)]
pub struct Planting {
    pub tree: Tree,
    pub pos: BlocPos,
    pub seed: i32,
    pub dist: u64,
}

/// The seed as the generator keeps it: the same 32 bits, read as a signed number.
pub open spec fn seed_of(seed: u32) -> i32 {
    if seed < 0x8000_0000 {
        seed as i32
    } else {
        (seed - 0x1_0000_0000) as i32
    }
}

/// The value that `config` gives to `name`: that of the last entry of this name.
pub open spec fn config_value(config: Seq<(String, i32)>, name: Seq<char>) -> Option<i32>
    decreases config.len(),
{
    if config.len() == 0 {
        None
    } else if config.last().0@ == name {
        Some(config.last().1)
    } else {
        config_value(config.drop_last(), name)
    }
}

/// The share of land that `config` asks for: its value for `land_ratio`, or
/// `DEFAULT_LAND_RATIO` where it has none.
pub open spec fn spec_land_ratio(config: Seq<(String, i32)>) -> i32 {
    match config_value(config, "land_ratio"@) {
        Some(v) => v,
        None => DEFAULT_LAND_RATIO,
    }
}

/// The soil for a temperature and a humidity: the outcome of the nearest entry of
/// `soils`, or dirt where the table is empty.
pub open spec fn spec_soil(soils: Seq<Condition<Bloc, 2>>, temperature: i32, humidity: i32) -> Bloc {
    if soils.len() == 0 {
        Bloc::Dirt
    } else {
        soils[nearest(soils, seq![temperature, humidity])].outcome
    }
}

/// Whether the cell at place `k` of a column lies in the band of soil: at most at the
/// terrain height of its vertical line and less than `SOIL_DEPTH` below it.
pub open spec fn in_band(k: int, heights: Seq<i32>) -> bool {
    heights[k / 200] - SOIL_DEPTH < k % 200 <= heights[k / 200]
}

/// The cells of a column after the band of soil was laid on its first `lines` vertical
/// lines: the cells of the band hold the soil of their line, all others are as in `cells`.
pub open spec fn terrain_cells_upto(
    cells: Seq<Bloc>,
    soils: Seq<Condition<Bloc, 2>>,
    fields: Fields,
    lines: int,
) -> Seq<Bloc> {
    Seq::new(
        cells.len(),
        |k: int|
            if k / 200 < lines && in_band(k, fields.heights()) {
                spec_soil(soils, fields.temperature()[k / 200], fields.humidity()[k / 200])
            } else {
                cells[k]
            },
    )
}

/// The cells of a column after the band of soil was laid on all its vertical lines.
pub open spec fn terrain_cells(
    cells: Seq<Bloc>,
    soils: Seq<Condition<Bloc, 2>>,
    fields: Fields,
) -> Seq<Bloc> {
    terrain_cells_upto(cells, soils, fields, CHUNK_S2 as int)
}

/// The world after column `col` was generated: the column is there, with the band of soil
/// laid on every vertical line; the other columns are as in `world`.
pub open spec fn generated(
    world: Map<ColPos, Seq<Bloc>>,
    col: ColPos,
    soils: Seq<Condition<Bloc, 2>>,
    fields: Fields,
) -> Map<ColPos, Seq<Bloc>> {
    world.insert(col, terrain_cells(cells_of(world, col), soils, fields))
}

/// Place in the fields of the vertical line through `pos`.
pub open spec fn line_of(pos: BlocPos) -> int {
    field_index(pos.spec_coled().0 as int, pos.spec_coled().2 as int)
}

/// Whether `pos` lies in the band of soil of column `col`: in that column, at a height of
/// the column that is at most the terrain height of its vertical line and less than
/// `SOIL_DEPTH` below it.
pub open spec fn in_soil_band(pos: BlocPos, col: ColPos, heights: Seq<i32>) -> bool {
    &&& pos.spec_col() == col
    &&& 0 <= pos.y < MAX_GEN_HEIGHT
    &&& heights[line_of(pos)] - SOIL_DEPTH < pos.y <= heights[line_of(pos)]
}

/// Generating a column changes the voxels of its bands of soil, which then hold the soil
/// of their vertical line, and no other voxel.
pub proof fn lemma_get_after_gen(
    world: Map<ColPos, Seq<Bloc>>,
    col: ColPos,
    soils: Seq<Condition<Bloc, 2>>,
    fields: Fields,
    pos: BlocPos,
)
    requires
        cols_full(world),
    ensures
        world_get(generated(world, col, soils, fields), pos) == if in_soil_band(
            pos,
            col,
            fields.heights(),
        ) {
            spec_soil(
                soils,
                fields.temperature()[line_of(pos)],
                fields.humidity()[line_of(pos)],
            )
        } else {
            world_get(world, pos)
        },
{
    let p = pos.spec_coled();
    if in_col(p) {
        assert(cell_index(p) / 200 == p.0 * 32 + p.2);
        assert(cell_index(p) % 200 == p.1);
    }
}

/// Generation is a function of what goes in: two generators with the same seed and the same
/// tables, given the same fields, leave worlds that held the same voxels with the same
/// voxels, and ask for the same plantings in the same order.
pub proof fn lemma_gen_deterministic(
    first: Earth,
    second: Earth,
    world: Map<ColPos, Seq<Bloc>>,
    col: ColPos,
    fields: Fields,
    other_fields: Fields,
)
    requires
        first.seed() == second.seed(),
        first.soils() == second.soils(),
        first.trees() == second.trees(),
        fields.heights() == other_fields.heights(),
        fields.temperature() == other_fields.temperature(),
        fields.humidity() == other_fields.humidity(),
        fields.precipitation() == other_fields.precipitation(),
    ensures
        generated(world, col, first.soils(), fields) == generated(
            world,
            col,
            second.soils(),
            other_fields,
        ),
        spec_plantings(first.trees(), first.seed(), col, fields) == spec_plantings(
            second.trees(),
            second.seed(),
            col,
            other_fields,
        ),
{
    assert(terrain_cells(cells_of(world, col), first.soils(), fields) =~= terrain_cells(
        cells_of(world, col),
        second.soils(),
        other_fields,
    ));
    lemma_plantings_by_values(first.trees(), first.seed(), col, fields, other_fields, 4);
}

proof fn lemma_plantings_by_values(
    trees: Seq<Condition<Tree, 4>>,
    seed: i32,
    col: ColPos,
    fields: Fields,
    other_fields: Fields,
    n: int,
)
    requires
        fields.heights() == other_fields.heights(),
        fields.temperature() == other_fields.temperature(),
        fields.humidity() == other_fields.humidity(),
        fields.precipitation() == other_fields.precipitation(),
    ensures
        spec_plantings_upto(trees, seed, col, fields, n) == spec_plantings_upto(
            trees,
            seed,
            col,
            other_fields,
            n,
        ),
    decreases n,
{
    if n > 0 {
        lemma_plantings_by_values(trees, seed, col, fields, other_fields, n - 1);
    }
}

/// Generating a column a second time leaves the world as the first time left it.
pub proof fn lemma_gen_again(
    world: Map<ColPos, Seq<Bloc>>,
    col: ColPos,
    soils: Seq<Condition<Bloc, 2>>,
    fields: Fields,
)
    requires
        cols_full(world),
    ensures
        generated(generated(world, col, soils, fields), col, soils, fields) == generated(
            world,
            col,
            soils,
            fields,
        ),
{
    let once = generated(world, col, soils, fields);
    assert(terrain_cells(cells_of(once, col), soils, fields) =~= terrain_cells(
        cells_of(world, col),
        soils,
        fields,
    ));
    assert(generated(once, col, soils, fields) =~= once);
}

/// The places in a column around which vegetation is tried, one in each quarter.
pub open spec fn tree_spots() -> Seq<(usize, usize)> {
    seq![(0usize, 0usize), (16usize, 0usize), (8usize, 16usize), (24usize, 16usize)]
}

/// What is planted for the spot `spot` of column `col`, if anything.
///
/// The pseudo-random number of the spot's position gives, by its three lowest bits and
/// the three above them, how far the planting is moved from the spot in `x` and in `z`,
/// and by the two bits above those a height jitter. Nothing is planted where the terrain
/// there is lower than `WATER_H`, or the table is empty. Otherwise the vegetation is the
/// outcome of the entry nearest to the conditions there, and the spread is the distance
/// to that entry plus the height jitter times `JITTER_STEP`.
pub open spec fn spec_planting(
    trees: Seq<Condition<Tree, 4>>,
    seed: i32,
    col: ColPos,
    fields: Fields,
    spot: (usize, usize),
) -> Option<Planting> {
    let rng = BlocPos2d::spec_in_col(col, spot).spec_prng(seed);
    let dx = spot.0 + rng % 8;
    let dz = spot.1 + (rng / 8) % 8;
    let h = (rng / 32) % 4;
    let i = field_index(dx, dz);
    let y = fields.heights()[i];
    if y < WATER_H || trees.len() == 0 {
        None
    } else {
        let query = seq![
            fields.temperature()[i],
            fields.humidity()[i],
            fields.precipitation()[i],
            (y * (UNIT / 200)) as i32,
        ];
        let entry = trees[nearest(trees, query)];
        Some(
            Planting {
                tree: entry.outcome,
                pos: BlocPos {
                    x: (col.x * 32 + dx) as i32,
                    y,
                    z: (col.z * 32 + dz) as i32,
                    realm: col.realm,
                },
                seed,
                dist: (floor_sqrt(dist_sq(entry.features@, query)) + h * JITTER_STEP) as u64,
            },
        )
    }
}

/// What is planted for the first `n` spots of column `col`, in the order of the spots.
pub open spec fn spec_plantings_upto(
    trees: Seq<Condition<Tree, 4>>,
    seed: i32,
    col: ColPos,
    fields: Fields,
    n: int,
) -> Seq<Planting>
    decreases n,
{
    if n <= 0 {
        Seq::empty()
    } else {
        let before = spec_plantings_upto(trees, seed, col, fields, n - 1);
        match spec_planting(trees, seed, col, fields, tree_spots()[n - 1]) {
            Some(planting) => before.push(planting),
            None => before,
        }
    }
}

/// What is planted in column `col`.
pub open spec fn spec_plantings(
    trees: Seq<Condition<Tree, 4>>,
    seed: i32,
    col: ColPos,
    fields: Fields,
) -> Seq<Planting> {
    spec_plantings_upto(trees, seed, col, fields, 4)
}

/// The rectangle of cells that column `pos` covers: first the range of its `z`, then the
/// range of its `x`, both with their ends.
pub fn pos_to_range(pos: ColPos) -> (range: [RangeInclusive<i32>; 2])
    requires
        pos.addressable(),
    ensures
        range@[0]@.start == pos.z * CHUNK_S1I,
        range@[0]@.end == pos.z * CHUNK_S1I + CHUNK_S1I - 1,
        !range@[0]@.exhausted,
        range@[1]@.start == pos.x * CHUNK_S1I,
        range@[1]@.end == pos.x * CHUNK_S1I + CHUNK_S1I - 1,
        !range@[1]@.exhausted,
{
    let x = pos.z * CHUNK_S1I;
    let y = pos.x * CHUNK_S1I;
    [RangeInclusive::new(x, x + (CHUNK_S1I - 1)), RangeInclusive::new(y, y + (CHUNK_S1I - 1))]
}

/// The terrain generator of an earth-like world.
pub struct Earth {
    soils: Soils,
    trees: Trees,
    seed: i32,
    config: Vec<(String, i32)>,
}

impl Earth {
    /// The table by which soils are chosen.
    pub closed spec fn soils(&self) -> Seq<Condition<Bloc, 2>> {
        self.soils@
    }

    /// The table by which vegetation is chosen.
    pub closed spec fn trees(&self) -> Seq<Condition<Tree, 4>> {
        self.trees@
    }

    /// The seed.
    pub closed spec fn seed(&self) -> i32 {
        self.seed
    }

    /// The configuration: names with their values in fixed point.
    pub closed spec fn config(&self) -> Seq<(String, i32)> {
        self.config@
    }

    /// A generator with the given seed, configuration and tables.
    pub fn new(seed: u32, config: Vec<(String, i32)>, soils: Soils, trees: Trees) -> (earth: Earth)
        ensures
            earth.seed() == seed_of(seed),
            earth.config() == config@,
            earth.soils() == soils@,
            earth.trees() == trees@,
    {
        Earth { soils, trees, seed: signed(seed), config }
    }

    /// Replaces the configuration; seed and tables stay.
    pub fn set_config(&mut self, config: Vec<(String, i32)>)
        ensures
            final(self).config() == config@,
            final(self).seed() == old(self).seed(),
            final(self).soils() == old(self).soils(),
            final(self).trees() == old(self).trees(),
    {
        self.config = config;
    }

    /// Replaces the seed; configuration and tables stay.
    pub fn set_seed(&mut self, seed: u32)
        ensures
            final(self).seed() == seed_of(seed),
            final(self).config() == old(self).config(),
            final(self).soils() == old(self).soils(),
            final(self).trees() == old(self).trees(),
    {
        self.seed = signed(seed);
    }

    /// The seed as the generator keeps it.
    pub fn get_seed(&self) -> (seed: i32)
        ensures
            seed == self.seed(),
    {
        self.seed
    }

    /// The share of land that the configuration asks for, in fixed point.
    pub fn land_ratio(&self) -> (ratio: i32)
        ensures
            ratio == spec_land_ratio(self.config()),
    {
        let name = "land_ratio".to_owned();
        let mut i: usize = self.config.len();
        assert(self.config@.take(i as int) =~= self.config@);
        while i > 0
            invariant
                i <= self.config@.len(),
                name@ == "land_ratio"@,
                config_value(self.config@, name@) == config_value(
                    self.config@.take(i as int),
                    name@,
                ),
            decreases i,
        {
            i -= 1;
            proof {
                assert(self.config@.take(i + 1).drop_last() =~= self.config@.take(i as int));
            }
            if self.config[i].0 == name {
                return self.config[i].1;
            }
        }
        DEFAULT_LAND_RATIO
    }

    /// The soil for a temperature and a humidity.
    pub fn soil(&self, temperature: i32, humidity: i32) -> (bloc: Bloc)
        ensures
            bloc == spec_soil(self.soils(), temperature, humidity),
    {
        let query = [temperature, humidity];
        assert(query@ =~= seq![temperature, humidity]);
        match self.soils.closest(query) {
            Some((bloc, _)) => *bloc,
            None => Bloc::Dirt,
        }
    }

    /// Lays the band of soil on every vertical line of column `col`: `SOIL_DEPTH` voxels
    /// from the terrain height downwards, of the soil that the temperature and humidity of
    /// the line call for, whatever was there. All other voxels stay.
    pub fn fill(&self, world: &mut Blocs, col: ColPos, fields: &Fields)
        requires
            old(world).wf(),
            fields.wf(),
        ensures
            final(world).wf(),
            final(world)@ == generated(old(world)@, col, self.soils(), *fields),
    {
        let ghost before = cells_of(world@, col);
        let ghost start = world@;
        let mut dx: usize = 0;
        while dx < CHUNK_S1
            invariant
                dx <= CHUNK_S1,
                world.wf(),
                fields.wf(),
                cols_full(start),
                before == cells_of(start, col),
                cells_of(world@, col) == terrain_cells_upto(
                    before,
                    self.soils(),
                    *fields,
                    dx * 32,
                ),
                dx == 0 ==> world@ == start,
                dx > 0 ==> world@ == start.insert(col, cells_of(world@, col)),
            decreases CHUNK_S1 - dx,
        {
            let mut dz: usize = 0;
            while dz < CHUNK_S1
                invariant
                    dx < CHUNK_S1,
                    dz <= CHUNK_S1,
                    world.wf(),
                    fields.wf(),
                    cols_full(start),
                    before == cells_of(start, col),
                    cells_of(world@, col) == terrain_cells_upto(
                        before,
                        self.soils(),
                        *fields,
                        dx * 32 + dz,
                    ),
                    dx * 32 + dz == 0 ==> world@ == start,
                    dx * 32 + dz > 0 ==> world@ == start.insert(col, cells_of(world@, col)),
                decreases CHUNK_S1 - dz,
            {
                let i = dx * CHUNK_S1 + dz;
                let y = fields.height(i);
                let bloc = self.soil(fields.temperature_at(i), fields.humidity_at(i));
                world.set_yrange(col, (dx, dz), y, SOIL_DEPTH, bloc);
                proof {
                    assert(cells_of(world@, col) =~= terrain_cells_upto(
                        before,
                        self.soils(),
                        *fields,
                        i + 1,
                    ));
                    assert(world@ =~= start.insert(col, cells_of(world@, col)));
                }
                dz += 1;
            }
            dx += 1;
        }
    }

    /// What is planted for the spot `spot` of column `col`, if anything.
    pub fn planting(&self, col: ColPos, fields: &Fields, spot: (usize, usize)) -> (r: Option<
        Planting,
    >)
        requires
            col.addressable(),
            fields.wf(),
            spot.0 + 8 <= CHUNK_S1,
            spot.1 + 8 <= CHUNK_S1,
        ensures
            r == spec_planting(self.trees(), self.seed(), col, *fields, spot),
            r matches Some(planting) ==> planting.pos.y >= WATER_H && planting.pos.spec_col()
                == col,
    {
        let rng = BlocPos2d::in_col(col, spot).prng(self.seed);
        let dx: usize = spot.0 + (rng % 8) as usize;
        let dz: usize = spot.1 + ((rng / 8) % 8) as usize;
        let h: u64 = (rng / 32) % 4;
        let i = dx * CHUNK_S1 + dz;
        let y = fields.height(i);
        if y < WATER_H {
            return None;
        }
        let query = [
            fields.temperature_at(i),
            fields.humidity_at(i),
            fields.precipitation_at(i),
            y * (UNIT / MAX_GEN_HEIGHT as i32),
        ];
        let ghost q = seq![
            fields.temperature()[i as int],
            fields.humidity()[i as int],
            fields.precipitation()[i as int],
            (y * (UNIT / 200)) as i32,
        ];
        assert(query@ =~= q);
        match self.trees.closest(query) {
            None => None,
            Some((tree, dist)) => {
                proof {
                    let entry = self.trees()[nearest(self.trees(), q)];
                    let d2 = dist_sq(entry.features@, q);
                    lemma_dist_sq_bounds(entry.features@, q, 4);
                    lemma_floor_sqrt_exists(d2);
                    assert(dist < 0x4_0000_0000) by (nonlinear_arith)
                        requires
                            dist * dist <= 4 * 0xffff_fffe_0000_0001,
                    ;
                }
                let pos = BlocPos::in_col(col, (dx, y, dz));
                Some(Planting { tree: *tree, pos, seed: self.seed, dist: dist + h * JITTER_STEP })
            },
        }
    }

    /// What is planted in column `col`: one planting at most for each of the four spots, in
    /// their order, and none on terrain below `WATER_H`.
    pub fn plant(&self, col: ColPos, fields: &Fields) -> (plantings: Vec<Planting>)
        requires
            col.addressable(),
            fields.wf(),
        ensures
            plantings@ == spec_plantings(self.trees(), self.seed(), col, *fields),
            plantings@.len() <= 4,
            forall|k: int|
                0 <= k < plantings@.len() ==> (#[trigger] plantings@[k]).pos.y >= WATER_H
                    && plantings@[k].pos.spec_col() == col,
    {
        let spots: [(usize, usize); 4] = [(0, 0), (16, 0), (8, 16), (24, 16)];
        assert(spots@ =~= tree_spots());
        let mut plantings: Vec<Planting> = Vec::new();
        let mut n: usize = 0;
        while n < 4
            invariant
                n <= 4,
                plantings@.len() <= n,
                col.addressable(),
                fields.wf(),
                spots@ == tree_spots(),
                plantings@ == spec_plantings_upto(
                    self.trees(),
                    self.seed(),
                    col,
                    *fields,
                    n as int,
                ),
                forall|k: int|
                    0 <= k < plantings@.len() ==> (#[trigger] plantings@[k]).pos.y >= WATER_H
                        && plantings@[k].pos.spec_col() == col,
            decreases 4 - n,
        {
            if let Some(planting) = self.planting(col, fields, spots[n]) {
                plantings.push(planting);
            }
            n += 1;
        }
        plantings
    }

    /// Generates column `col` from its fields: lays the band of soil on every vertical
    /// line, and returns what is to be planted in the column, in order. The world changes
    /// in this one column only, and only in the bands.
    pub fn gen(&self, world: &mut Blocs, col: ColPos, fields: &Fields) -> (plantings: Vec<
        Planting,
    >)
        requires
            old(world).wf(),
            fields.wf(),
            col.addressable(),
        ensures
            final(world).wf(),
            final(world)@ == generated(old(world)@, col, self.soils(), *fields),
            forall|p: BlocPos|
                #[trigger] final(world).bloc_at(p) == if in_soil_band(p, col, fields.heights()) {
                    spec_soil(
                        self.soils(),
                        fields.temperature()[line_of(p)],
                        fields.humidity()[line_of(p)],
                    )
                } else {
                    old(world).bloc_at(p)
                },
            plantings@ == spec_plantings(self.trees(), self.seed(), col, *fields),
            plantings@.len() <= 4,
            forall|k: int|
                0 <= k < plantings@.len() ==> (#[trigger] plantings@[k]).pos.y >= WATER_H
                    && plantings@[k].pos.spec_col() == col,
    {
        self.fill(world, col, fields);
        proof {
            assert forall|p: BlocPos|
                #[trigger] world.bloc_at(p) == if in_soil_band(p, col, fields.heights()) {
                    spec_soil(
                        self.soils(),
                        fields.temperature()[line_of(p)],
                        fields.humidity()[line_of(p)],
                    )
                } else {
                    old(world).bloc_at(p)
                } by {
                lemma_get_after_gen(old(world)@, col, self.soils(), *fields, p);
            }
        }
        self.plant(col, fields)
    }
}

fn signed(seed: u32) -> (s: i32)
    ensures
        s == seed_of(seed),
{
    if seed < 0x8000_0000 {
        seed as i32
    } else {
        (seed as i64 - 0x1_0000_0000) as i32
    }
}

} // verus!
