use super::bloc::Bloc;
use super::col::{
    cell_index, cells_get, cells_set, cells_set_if_empty, cells_set_yrange, cells_top,
    cells_top_below, empty_cells, in_col, Col, COL_LEN,
};
use super::pos::{BlocPos, BlocPos2d, ColPos, ColedPos2d, CHUNK_S1, MAX_GEN_HEIGHT};
use std::collections::HashMap;
use vstd::prelude::*;

verus! {

broadcast use vstd::std_specs::hash::group_hash_axioms;

/// The cells of column `col` in `world`: those stored for it, or, where the world holds no
/// such column, cells that are all empty.
pub open spec fn cells_of(world: Map<ColPos, Seq<Bloc>>, col: ColPos) -> Seq<Bloc> {
    if world.contains_key(col) {
        world[col]
    } else {
        empty_cells()
    }
}

/// The voxel that `world` holds at `pos`.
pub open spec fn world_get(world: Map<ColPos, Seq<Bloc>>, pos: BlocPos) -> Bloc {
    cells_get(cells_of(world, pos.spec_col()), pos.spec_coled())
}

/// The highest voxel of `world` on the vertical line `pos` that is not empty, and its height.
pub open spec fn world_top(world: Map<ColPos, Seq<Bloc>>, pos: BlocPos2d) -> (Bloc, i32) {
    cells_top(cells_of(world, pos.spec_col()), pos.spec_coled())
}

/// `world` after `bloc` is written at `pos`: the column of `pos` is there, and holds what it
/// held, or empty cells, with the one cell changed.
pub open spec fn world_set(world: Map<ColPos, Seq<Bloc>>, pos: BlocPos, bloc: Bloc) -> Map<
    ColPos,
    Seq<Bloc>,
> {
    world.insert(
        pos.spec_col(),
        cells_set(cells_of(world, pos.spec_col()), pos.spec_coled(), bloc),
    )
}

/// `world` after `bloc` is written at `pos` unless a voxel is there already.
pub open spec fn world_set_if_empty(
    world: Map<ColPos, Seq<Bloc>>,
    pos: BlocPos,
    bloc: Bloc,
) -> Map<ColPos, Seq<Bloc>> {
    world.insert(
        pos.spec_col(),
        cells_set_if_empty(cells_of(world, pos.spec_col()), pos.spec_coled(), bloc),
    )
}

/// `world` after `bloc` is written in column `col` on the vertical line `pos`, at the
/// `depth` heights from `top` downwards.
pub open spec fn world_set_yrange(
    world: Map<ColPos, Seq<Bloc>>,
    col: ColPos,
    pos: ColedPos2d,
    top: int,
    depth: int,
    bloc: Bloc,
) -> Map<ColPos, Seq<Bloc>> {
    world.insert(col, cells_set_yrange(cells_of(world, col), pos, top, depth, bloc))
}

/// Every column of `world` holds its full number of cells.
pub open spec fn cols_full(world: Map<ColPos, Seq<Bloc>>) -> bool {
    forall|col: ColPos| world.contains_key(col) ==> (#[trigger] world[col]).len() == COL_LEN
}

/// Whether `pos` lies in column `col` on the vertical line `line`, at a height of the
/// column that is at most `top` and more than `top - depth`.
pub open spec fn in_yrange(pos: BlocPos, col: ColPos, line: ColedPos2d, top: int, depth: int) -> bool {
    &&& pos.spec_col() == col
    &&& pos.spec_coled().0 == line.0
    &&& pos.spec_coled().2 == line.1
    &&& top - depth < pos.y <= top
    &&& 0 <= pos.y < MAX_GEN_HEIGHT
}

/// Where no column exists for a position, the voxel there is empty, and the top of the
/// vertical line through it is the empty voxel at height 0.
pub proof fn lemma_untouched_is_empty(world: Map<ColPos, Seq<Bloc>>, pos: BlocPos)
    requires
        !world.contains_key(pos.spec_col()),
    ensures
        world_get(world, pos) == Bloc::Air,
        world_top(world, BlocPos2d { x: pos.x, z: pos.z, realm: pos.realm }) == (Bloc::Air, 0i32),
{
    lemma_empty_cells_top(pos.spec_coled().0, pos.spec_coled().2);
}

/// A write changes the voxel at its position, if the height lies in the column, and no
/// other voxel.
pub proof fn lemma_get_after_set(
    world: Map<ColPos, Seq<Bloc>>,
    pos: BlocPos,
    bloc: Bloc,
    other: BlocPos,
)
    requires
        cols_full(world),
    ensures
        world_get(world_set(world, pos, bloc), other) == if other == pos && 0 <= pos.y
            < MAX_GEN_HEIGHT {
            bloc
        } else {
            world_get(world, other)
        },
{
}

/// A conditional write changes the voxel at its position, if the height lies in the column
/// and the voxel is empty, and no other voxel.
pub proof fn lemma_get_after_set_if_empty(
    world: Map<ColPos, Seq<Bloc>>,
    pos: BlocPos,
    bloc: Bloc,
    other: BlocPos,
)
    requires
        cols_full(world),
    ensures
        world_get(world_set_if_empty(world, pos, bloc), other) == if other == pos && 0 <= pos.y
            < MAX_GEN_HEIGHT && world_get(world, pos) == Bloc::Air {
            bloc
        } else {
            world_get(world, other)
        },
{
}

/// After a voxel that is not empty was written at a position, a conditional write at that
/// position leaves the world as it is.
pub proof fn lemma_set_if_empty_after_set(
    world: Map<ColPos, Seq<Bloc>>,
    pos: BlocPos,
    first: Bloc,
    second: Bloc,
)
    requires
        cols_full(world),
        first != Bloc::Air,
    ensures
        world_set_if_empty(world_set(world, pos, first), pos, second) == world_set(
            world,
            pos,
            first,
        ),
{
    assert(world_set_if_empty(world_set(world, pos, first), pos, second) =~= world_set(
        world,
        pos,
        first,
    ));
}

/// A conditional write at a position whose voxel is empty, and whose height lies in the
/// column, does what a write does: the voxel is then the one given.
pub proof fn lemma_set_if_empty_on_empty(world: Map<ColPos, Seq<Bloc>>, pos: BlocPos, bloc: Bloc)
    requires
        cols_full(world),
        0 <= pos.y < MAX_GEN_HEIGHT,
        world_get(world, pos) == Bloc::Air,
    ensures
        world_set_if_empty(world, pos, bloc) == world_set(world, pos, bloc),
        world_get(world_set_if_empty(world, pos, bloc), pos) == bloc,
{
}

/// A conditional write never changes a voxel that is not empty, wherever it is made.
pub proof fn lemma_set_if_empty_keeps(
    world: Map<ColPos, Seq<Bloc>>,
    pos: BlocPos,
    bloc: Bloc,
    other: BlocPos,
)
    requires
        cols_full(world),
        world_get(world, other) != Bloc::Air,
    ensures
        world_get(world_set_if_empty(world, pos, bloc), other) == world_get(world, other),
{
    lemma_get_after_set_if_empty(world, pos, bloc, other);
}

/// A vertical fill changes the voxels of its run, as far as their heights lie in the
/// column, and no other voxel.
pub proof fn lemma_get_after_set_yrange(
    world: Map<ColPos, Seq<Bloc>>,
    col: ColPos,
    line: ColedPos2d,
    top: int,
    depth: int,
    bloc: Bloc,
    other: BlocPos,
)
    requires
        cols_full(world),
        line.0 < CHUNK_S1,
        line.1 < CHUNK_S1,
    ensures
        world_get(world_set_yrange(world, col, line, top, depth, bloc), other) == if in_yrange(
            other,
            col,
            line,
            top,
            depth,
        ) {
            bloc
        } else {
            world_get(world, other)
        },
{
    let p = other.spec_coled();
    if in_col(p) {
        assert(cell_index(p) / 200 == p.0 * 32 + p.2);
        assert(cell_index(p) % 200 == p.1);
    }
}

/// On cells that are all empty, the top of every vertical line is the empty voxel at
/// height 0.
pub proof fn lemma_empty_cells_top(x: usize, z: usize)
    requires
        x < CHUNK_S1,
        z < CHUNK_S1,
    ensures
        cells_top(empty_cells(), (x, z)) == (Bloc::Air, 0i32),
{
    lemma_empty_cells_top_below(x, z, MAX_GEN_HEIGHT as int);
}

proof fn lemma_empty_cells_top_below(x: usize, z: usize, y: int)
    requires
        x < CHUNK_S1,
        z < CHUNK_S1,
        0 <= y <= MAX_GEN_HEIGHT,
    ensures
        cells_top_below(empty_cells(), (x, z), y) == (Bloc::Air, 0i32),
    decreases y,
{
    if y > 0 {
        lemma_empty_cells_top_below(x, z, y - 1);
    }
}

/// The voxels of all realms, kept column by column; a column comes into being when
/// something is first written into it.
pub struct Blocs {
    cols: HashMap<u128, Col>,
}

impl View for Blocs {
    type V = Map<ColPos, Seq<Bloc>>;

    /// The columns that exist, each with its cells.
    closed spec fn view(&self) -> Map<ColPos, Seq<Bloc>> {
        Map::new(
            |col: ColPos| self.cols@.contains_key(col.spec_key() as u128),
            |col: ColPos| self.cols@[col.spec_key() as u128]@,
        )
    }
}

impl Blocs {
    /// Every column that exists holds its full number of cells.
    pub open spec fn wf(&self) -> bool {
        cols_full(self@)
    }

    /// The highest voxel on the vertical line `pos` that is not empty, and its height.
    pub open spec fn top_at(&self, pos: BlocPos2d) -> (Bloc, i32) {
        world_top(self@, pos)
    }

    /// The voxel at `pos`.
    pub open spec fn bloc_at(&self, pos: BlocPos) -> Bloc {
        world_get(self@, pos)
    }

    /// A world without any column.
    pub fn new() -> (world: Blocs)
        ensures
            world.wf(),
            world@ == Map::<ColPos, Seq<Bloc>>::empty(),
    {
        let world = Blocs { cols: HashMap::new() };
        assert(world@ =~= Map::<ColPos, Seq<Bloc>>::empty());
        world
    }

    /// Writes `bloc` at `pos`, whatever was there, in a column that is made first if the
    /// world does not hold it yet. A height outside `0..MAX_GEN_HEIGHT` leaves every voxel
    /// as it was.
    pub fn set_bloc(&mut self, pos: BlocPos, bloc: Bloc)
        requires
            old(self).wf(),
        ensures
            final(self).wf(),
            final(self)@ == world_set(old(self)@, pos, bloc),
            forall|p: BlocPos|
                #[trigger] final(self).bloc_at(p) == if p == pos && 0 <= pos.y < MAX_GEN_HEIGHT {
                    bloc
                } else {
                    old(self).bloc_at(p)
                },
    {
        let (colpos, coledpos) = pos.split();
        proof {
            old(self).lemma_col_at(colpos);
        }
        self.cols.entry(colpos.key()).or_insert(Col::new()).set(coledpos, bloc);
        proof {
            assert forall|c: ColPos| c.spec_key() == colpos.spec_key() implies c == colpos by {
                ColPos::lemma_key_injective(c, colpos);
            }
            assert(self@ =~= world_set(old(self)@, pos, bloc));
            assert forall|p: BlocPos|
                #[trigger] self.bloc_at(p) == if p == pos && 0 <= pos.y < MAX_GEN_HEIGHT {
                    bloc
                } else {
                    old(self).bloc_at(p)
                } by {
                lemma_get_after_set(old(self)@, pos, bloc, p);
            }
        }
    }

    /// Writes `bloc` at `pos` if the voxel there is empty, in a column that is made first
    /// if the world does not hold it yet; a voxel that is not empty stays.
    pub fn set_if_empty(&mut self, pos: BlocPos, bloc: Bloc)
        requires
            old(self).wf(),
        ensures
            final(self).wf(),
            final(self)@ == world_set_if_empty(old(self)@, pos, bloc),
            forall|p: BlocPos|
                #[trigger] final(self).bloc_at(p) == if p == pos && 0 <= pos.y < MAX_GEN_HEIGHT
                    && old(self).bloc_at(pos) == Bloc::Air {
                    bloc
                } else {
                    old(self).bloc_at(p)
                },
    {
        let (colpos, coledpos) = pos.split();
        proof {
            old(self).lemma_col_at(colpos);
        }
        self.cols.entry(colpos.key()).or_insert(Col::new()).set_if_empty(coledpos, bloc);
        proof {
            assert forall|c: ColPos| c.spec_key() == colpos.spec_key() implies c == colpos by {
                ColPos::lemma_key_injective(c, colpos);
            }
            assert(self@ =~= world_set_if_empty(old(self)@, pos, bloc));
            assert forall|p: BlocPos|
                #[trigger] self.bloc_at(p) == if p == pos && 0 <= pos.y < MAX_GEN_HEIGHT
                    && old(self).bloc_at(pos) == Bloc::Air {
                    bloc
                } else {
                    old(self).bloc_at(p)
                } by {
                lemma_get_after_set_if_empty(old(self)@, pos, bloc, p);
            }
        }
    }

    /// Writes `bloc` in column `col` on the vertical line `line`, at the heights `top`,
    /// `top - 1`, .. down to `top - depth + 1`, whatever was there; the column is made first
    /// if the world does not hold it yet, and heights outside `0..MAX_GEN_HEIGHT` are
    /// passed over.
    pub fn set_yrange(&mut self, col: ColPos, line: ColedPos2d, top: i32, depth: usize, bloc: Bloc)
        requires
            old(self).wf(),
            line.0 < CHUNK_S1,
            line.1 < CHUNK_S1,
        ensures
            final(self).wf(),
            final(self)@ == world_set_yrange(
                old(self)@,
                col,
                line,
                top as int,
                depth as int,
                bloc,
            ),
            forall|p: BlocPos|
                #[trigger] final(self).bloc_at(p) == if in_yrange(
                    p,
                    col,
                    line,
                    top as int,
                    depth as int,
                ) {
                    bloc
                } else {
                    old(self).bloc_at(p)
                },
    {
        proof {
            old(self).lemma_col_at(col);
        }
        self.cols.entry(col.key()).or_insert(Col::new()).set_yrange(line, top, depth, bloc);
        proof {
            assert forall|c: ColPos| c.spec_key() == col.spec_key() implies c == col by {
                ColPos::lemma_key_injective(c, col);
            }
            assert(self@ =~= world_set_yrange(
                old(self)@,
                col,
                line,
                top as int,
                depth as int,
                bloc,
            ));
            assert forall|p: BlocPos|
                #[trigger] self.bloc_at(p) == if in_yrange(p, col, line, top as int, depth as int) {
                    bloc
                } else {
                    old(self).bloc_at(p)
                } by {
                lemma_get_after_set_yrange(
                    old(self)@,
                    col,
                    line,
                    top as int,
                    depth as int,
                    bloc,
                    p,
                );
            }
        }
    }

    /// Whether the world holds a column at `col`.
    pub fn has_col(&self, col: ColPos) -> (has: bool)
        ensures
            has == self@.contains_key(col),
    {
        let key = col.key();
        self.cols.contains_key(&key)
    }

    /// What the map of columns holds under the key of `col` is what the view holds at `col`.
    proof fn lemma_col_at(&self, col: ColPos)
        requires
            self.wf(),
        ensures
            self.cols@.contains_key(col.spec_key() as u128) == self@.contains_key(col),
            self@.contains_key(col) ==> self.cols@[col.spec_key() as u128]@ == self@[col]
                && self.cols@[col.spec_key() as u128].wf(),
    {
        if self@.contains_key(col) {
            assert(self@[col].len() == COL_LEN);
        }
    }

    /// The voxel at `pos`: the empty voxel where the world holds no column for it.
    pub fn get_block(&self, pos: BlocPos) -> (bloc: Bloc)
        requires
            self.wf(),
        ensures
            bloc == self.bloc_at(pos),
    {
        let (colpos, coledpos) = pos.split();
        let key = colpos.key();
        proof {
            self.lemma_col_at(colpos);
        }
        match self.cols.get(&key) {
            None => Bloc::default(),
            Some(col) => col.get(coledpos),
        }
    }

    /// The highest voxel on the vertical line `pos` that is not empty, and its height; the
    /// empty voxel and 0 where the line is empty or the world holds no column for it.
    pub fn top_block(&self, pos: BlocPos2d) -> (r: (Bloc, i32))
        requires
            self.wf(),
        ensures
            r == self.top_at(pos),
    {
        let (colpos, pos2d) = pos.split();
        let key = colpos.key();
        proof {
            self.lemma_col_at(colpos);
            lemma_empty_cells_top(pos2d.0, pos2d.1);
        }
        match self.cols.get(&key) {
            None => (Bloc::default(), 0),
            Some(col) => col.top(pos2d),
        }
    }
}

} // verus!
