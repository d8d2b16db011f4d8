use super::bloc::Bloc;
use super::pos::{ColedPos, ColedPos2d, CHUNK_S1, MAX_GEN_HEIGHT};
use vstd::prelude::*;

verus! {

/// Number of cells of a column: `CHUNK_S1 * CHUNK_S1 * MAX_GEN_HEIGHT`.
pub const COL_LEN: usize = 204_800;

/// Whether `pos` names a cell of a column: both local coordinates are in `0..CHUNK_S1`
/// and the height is in `0..MAX_GEN_HEIGHT`.
pub open spec fn in_col(pos: ColedPos) -> bool {
    &&& pos.0 < 32
    &&& 0 <= pos.1 < 200
    &&& pos.2 < 32
}

/// Place of the cell `pos` in the sequence of a column's cells: the cells of one vertical
/// line are neighbours, lowest first.
pub open spec fn cell_index(pos: ColedPos) -> int {
    (pos.0 * 32 + pos.2) * 200 + pos.1
}

/// The cells of a column nothing was written to.
pub open spec fn empty_cells() -> Seq<Bloc> {
    Seq::new(COL_LEN as nat, |i: int| Bloc::Air)
}

/// What the cells `cells` hold at `pos`; outside the column that is the empty voxel.
pub open spec fn cells_get(cells: Seq<Bloc>, pos: ColedPos) -> Bloc {
    if in_col(pos) {
        cells[cell_index(pos)]
    } else {
        Bloc::Air
    }
}

/// The cells after `bloc` is written at `pos`; a write outside the column changes nothing.
pub open spec fn cells_set(cells: Seq<Bloc>, pos: ColedPos, bloc: Bloc) -> Seq<Bloc> {
    if in_col(pos) {
        cells.update(cell_index(pos), bloc)
    } else {
        cells
    }
}

/// The cells after `bloc` is written at `pos` unless something is there already.
pub open spec fn cells_set_if_empty(cells: Seq<Bloc>, pos: ColedPos, bloc: Bloc) -> Seq<Bloc> {
    if cells_get(cells, pos) == Bloc::Air {
        cells_set(cells, pos, bloc)
    } else {
        cells
    }
}

/// Whether the cell at place `i` lies on the vertical line `pos`, at a height that is at
/// most `top` and more than `top - depth`.
pub open spec fn in_run(i: int, pos: ColedPos2d, top: int, depth: int) -> bool {
    &&& i / 200 == pos.0 * 32 + pos.1
    &&& top - depth < i % 200 <= top
}

/// The cells after `bloc` is written on the vertical line `pos` at the `depth` heights from
/// `top` downwards, as far as they lie in the column.
pub open spec fn cells_set_yrange(
    cells: Seq<Bloc>,
    pos: ColedPos2d,
    top: int,
    depth: int,
    bloc: Bloc,
) -> Seq<Bloc> {
    Seq::new(
        cells.len(),
        |i: int|
            if in_run(i, pos, top, depth) {
                bloc
            } else {
                cells[i]
            },
    )
}

/// The highest voxel below height `y` on the vertical line `pos` that is not empty, with
/// its height; the empty voxel and height 0 if there is none.
pub open spec fn cells_top_below(cells: Seq<Bloc>, pos: ColedPos2d, y: int) -> (Bloc, i32)
    decreases y,
{
    if y <= 0 {
        (Bloc::Air, 0)
    } else if cells[cell_index((pos.0, (y - 1) as i32, pos.1))] != Bloc::Air {
        (cells[cell_index((pos.0, (y - 1) as i32, pos.1))], (y - 1) as i32)
    } else {
        cells_top_below(cells, pos, y - 1)
    }
}

/// The highest voxel on the vertical line `pos` that is not empty, with its height; the
/// empty voxel and height 0 if the whole line is empty.
pub open spec fn cells_top(cells: Seq<Bloc>, pos: ColedPos2d) -> (Bloc, i32) {
    cells_top_below(cells, pos, MAX_GEN_HEIGHT as int)
}

/// What `cells_top_below` finds is the highest voxel below `y` that is not empty: every
/// cell above it and below `y` is empty; and where it finds none, the line is empty below `y`.
pub proof fn lemma_top_below_is_highest(cells: Seq<Bloc>, pos: ColedPos2d, y: int)
    requires
        0 <= y <= MAX_GEN_HEIGHT,
    ensures
        ({
            let (bloc, h) = cells_top_below(cells, pos, y);
            if bloc == Bloc::Air {
                &&& h == 0
                &&& forall|k: int|
                    0 <= k < y ==> cells[#[trigger] cell_index((pos.0, k as i32, pos.1))]
                        == Bloc::Air
            } else {
                &&& 0 <= h < y
                &&& cells[cell_index((pos.0, h, pos.1))] == bloc
                &&& forall|k: int|
                    h < k < y ==> cells[#[trigger] cell_index((pos.0, k as i32, pos.1))]
                        == Bloc::Air
            }
        }),
    decreases y,
{
    if y > 0 && cells[cell_index((pos.0, (y - 1) as i32, pos.1))] == Bloc::Air {
        lemma_top_below_is_highest(cells, pos, y - 1);
        let (bloc, h) = cells_top_below(cells, pos, y);
        assert forall|k: int| (if bloc == Bloc::Air { 0 } else { h + 1 }) <= k < y implies cells[
            #[trigger] cell_index((pos.0, k as i32, pos.1))] == Bloc::Air by {
            if k < y - 1 {
            } else {
                assert(k == y - 1);
            }
        }
    }
}

/// What `cells_top` finds is the highest voxel of the vertical line that is not empty;
/// where it finds none, the whole line is empty.
pub proof fn lemma_top_is_highest(cells: Seq<Bloc>, pos: ColedPos2d)
    ensures
        ({
            let (bloc, h) = cells_top(cells, pos);
            if bloc == Bloc::Air {
                &&& h == 0
                &&& forall|k: int|
                    0 <= k < MAX_GEN_HEIGHT ==> cells[#[trigger] cell_index(
                        (pos.0, k as i32, pos.1),
                    )] == Bloc::Air
            } else {
                &&& 0 <= h < MAX_GEN_HEIGHT
                &&& cells[cell_index((pos.0, h, pos.1))] == bloc
                &&& forall|k: int|
                    h < k < MAX_GEN_HEIGHT ==> cells[#[trigger] cell_index(
                        (pos.0, k as i32, pos.1),
                    )] == Bloc::Air
            }
        }),
{
    lemma_top_below_is_highest(cells, pos, MAX_GEN_HEIGHT as int);
}

/// One vertical slab of the world: `CHUNK_S1` by `CHUNK_S1` cells wide and
/// `MAX_GEN_HEIGHT` cells high.
pub struct Col {
    blocs: Vec<Bloc>,
}

impl View for Col {
    type V = Seq<Bloc>;

    /// The cells of the column, in the order of `cell_index`.
    closed spec fn view(&self) -> Seq<Bloc> {
        self.blocs@
    }
}

impl Col {
    /// A column holds exactly `COL_LEN` cells.
    pub open spec fn wf(&self) -> bool {
        self@.len() == COL_LEN
    }

    /// A column of empty voxels.
    pub fn new() -> (col: Col)
        ensures
            col.wf(),
            col@ == empty_cells(),
    {
        let col = Col { blocs: vec![Bloc::Air; COL_LEN] };
        assert(col@ =~= empty_cells());
        col
    }

    /// The voxel at `pos`; the empty voxel where the height lies outside the column.
    pub fn get(&self, pos: ColedPos) -> (bloc: Bloc)
        requires
            self.wf(),
            pos.0 < CHUNK_S1,
            pos.2 < CHUNK_S1,
        ensures
            bloc == cells_get(self@, pos),
    {
        let (x, y, z) = pos;
        if 0 <= y && y < MAX_GEN_HEIGHT as i32 {
            self.blocs[(x * CHUNK_S1 + z) * MAX_GEN_HEIGHT + y as usize]
        } else {
            Bloc::Air
        }
    }

    /// Writes `bloc` at `pos`, whatever was there; nothing where the height lies outside
    /// the column.
    pub fn set(&mut self, pos: ColedPos, bloc: Bloc)
        requires
            old(self).wf(),
            pos.0 < CHUNK_S1,
            pos.2 < CHUNK_S1,
        ensures
            final(self).wf(),
            final(self)@ == cells_set(old(self)@, pos, bloc),
    {
        let (x, y, z) = pos;
        if 0 <= y && y < MAX_GEN_HEIGHT as i32 {
            self.blocs.set((x * CHUNK_S1 + z) * MAX_GEN_HEIGHT + y as usize, bloc);
        }
    }

    /// Writes `bloc` at `pos` if the voxel there is empty, and leaves the column as it is
    /// otherwise.
    pub fn set_if_empty(&mut self, pos: ColedPos, bloc: Bloc)
        requires
            old(self).wf(),
            pos.0 < CHUNK_S1,
            pos.2 < CHUNK_S1,
        ensures
            final(self).wf(),
            final(self)@ == cells_set_if_empty(old(self)@, pos, bloc),
    {
        if self.get(pos).is_empty() {
            self.set(pos, bloc);
        }
    }

    /// Writes `bloc` on the vertical line `pos` at the heights `top`, `top - 1`, .. down to
    /// `top - depth + 1`, whatever was there; heights outside the column are passed over.
    pub fn set_yrange(&mut self, pos: ColedPos2d, top: i32, depth: usize, bloc: Bloc)
        requires
            old(self).wf(),
            pos.0 < CHUNK_S1,
            pos.1 < CHUNK_S1,
        ensures
            final(self).wf(),
            final(self)@ == cells_set_yrange(old(self)@, pos, top as int, depth as int, bloc),
    {
        let (x, z) = pos;
        if top < 0 {
            assert(self@ =~= cells_set_yrange(old(self)@, pos, top as int, depth as int, bloc));
            return ;
        }
        let t: usize = top as usize;
        let end: usize = if t < MAX_GEN_HEIGHT {
            t + 1
        } else {
            MAX_GEN_HEIGHT
        };
        let start: usize = if depth > t {
            0
        } else {
            t - depth + 1
        };
        let base: usize = (x * CHUNK_S1 + z) * MAX_GEN_HEIGHT;
        let mut y: usize = start;
        while y < end
            invariant
                self.wf(),
                old(self).wf(),
                end <= MAX_GEN_HEIGHT,
                base == (x * 32 + z) * 200,
                x < 32,
                z < 32,
                start <= y,
                y <= end || y == start,
                forall|i: int|
                    0 <= i < COL_LEN ==> self@[i] == if i / 200 == x * 32 + z && start <= i % 200
                        < y {
                        bloc
                    } else {
                        old(self)@[i]
                    },
            decreases end - y,
        {
            self.blocs.set(base + y, bloc);
            y += 1;
        }
        assert(self@ =~= cells_set_yrange(old(self)@, pos, top as int, depth as int, bloc));
    }

    /// The highest voxel on the vertical line `pos` that is not empty, and its height; the
    /// empty voxel and 0 where the line is empty.
    pub fn top(&self, pos: ColedPos2d) -> (r: (Bloc, i32))
        requires
            self.wf(),
            pos.0 < CHUNK_S1,
            pos.1 < CHUNK_S1,
        ensures
            r == cells_top(self@, pos),
    {
        let (x, z) = pos;
        let base: usize = (x * CHUNK_S1 + z) * MAX_GEN_HEIGHT;
        let mut y: usize = MAX_GEN_HEIGHT;
        while y > 0
            invariant
                self.wf(),
                y <= MAX_GEN_HEIGHT,
                x < 32,
                z < 32,
                pos == (x, z),
                base == (x * 32 + z) * 200,
                cells_top(self@, pos) == cells_top_below(self@, pos, y as int),
            decreases y,
        {
            y -= 1;
            let bloc = self.blocs[base + y];
            if !bloc.is_empty() {
                return (bloc, y as i32);
            }
        }
        (Bloc::Air, 0)
    }
}

} // verus!
