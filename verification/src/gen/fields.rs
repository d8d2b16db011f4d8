use crate::blocs::pos::MAX_GEN_HEIGHT;
use vstd::prelude::*;

verus! {

/// The number one in the fixed-point scale in which field values and table conditions
/// are written: a value `v` stands for `v / UNIT`.
pub const UNIT: i32 = 1_000_000;

/// Number of vertical lines of a column: `CHUNK_S1 * CHUNK_S1`.
pub const CHUNK_S2: usize = 1024;

/// Place in a field of the vertical line with local coordinates `dx` and `dz`.
pub open spec fn field_index(dx: int, dz: int) -> int {
    dx * 32 + dz
}

/// The terrain height that stands for an elevation: the elevation is held between zero
/// and one, and that share of `MAX_GEN_HEIGHT` is taken, rounded down.
pub open spec fn spec_height_of(elevation: int) -> int {
    if elevation <= 0 {
        0
    } else if elevation >= UNIT {
        MAX_GEN_HEIGHT as int
    } else {
        elevation * MAX_GEN_HEIGHT / (UNIT as int)
    }
}

/// Whatever the elevation, the terrain height lies in `0..=MAX_GEN_HEIGHT`.
pub proof fn lemma_height_of_bounds(elevation: int)
    ensures
        0 <= spec_height_of(elevation) <= MAX_GEN_HEIGHT,
{
}

/// A higher elevation never gives a lower terrain height.
pub proof fn lemma_height_of_monotonic(lower: int, higher: int)
    requires
        lower <= higher,
    ensures
        spec_height_of(lower) <= spec_height_of(higher),
{
}

/// The terrain height for an elevation in fixed point; it lies in `0..=MAX_GEN_HEIGHT`.
pub fn height_of(elevation: i32) -> (h: i32)
    ensures
        h == spec_height_of(elevation as int),
        0 <= h <= MAX_GEN_HEIGHT,
{
    if elevation <= 0 {
        0
    } else if elevation >= UNIT {
        MAX_GEN_HEIGHT as i32
    } else {
        (elevation as i64 * MAX_GEN_HEIGHT as i64 / UNIT as i64) as i32
    }
}

/// The scalar fields of one column, one value for each vertical line, in the order of
/// `field_index`: the terrain height, and temperature, humidity and precipitation in
/// fixed point.
pub struct Fields {
    heights: Vec<i32>,
    temperature: Vec<i32>,
    humidity: Vec<i32>,
    precipitation: Vec<i32>,
}

impl Fields {
    /// The terrain height of each vertical line.
    pub closed spec fn heights(&self) -> Seq<i32> {
        self.heights@
    }

    /// The temperature at each vertical line.
    pub closed spec fn temperature(&self) -> Seq<i32> {
        self.temperature@
    }

    /// The humidity at each vertical line.
    pub closed spec fn humidity(&self) -> Seq<i32> {
        self.humidity@
    }

    /// The precipitation at each vertical line.
    pub closed spec fn precipitation(&self) -> Seq<i32> {
        self.precipitation@
    }

    /// Each field has one value for each vertical line, and every height lies in
    /// `0..=MAX_GEN_HEIGHT`.
    pub open spec fn wf(&self) -> bool {
        &&& self.heights().len() == CHUNK_S2
        &&& self.temperature().len() == CHUNK_S2
        &&& self.humidity().len() == CHUNK_S2
        &&& self.precipitation().len() == CHUNK_S2
        &&& forall|i: int| 0 <= i < CHUNK_S2 ==> 0 <= #[trigger] self.heights()[i] <= MAX_GEN_HEIGHT
    }

    /// Fields from an elevation, a temperature, a humidity and a precipitation for each
    /// vertical line, all in fixed point; the heights are those that `height_of` gives for
    /// the elevations. `None` if and only if one of the four has not `CHUNK_S2` values.
    pub fn new(
        elevation: Vec<i32>,
        temperature: Vec<i32>,
        humidity: Vec<i32>,
        precipitation: Vec<i32>,
    ) -> (r: Option<Fields>)
        ensures
            r is Some <==> elevation@.len() == CHUNK_S2 && temperature@.len() == CHUNK_S2
                && humidity@.len() == CHUNK_S2 && precipitation@.len() == CHUNK_S2,
            r matches Some(fields) ==> {
                &&& fields.wf()
                &&& forall|i: int|
                    0 <= i < CHUNK_S2 ==> #[trigger] fields.heights()[i] == spec_height_of(
                        elevation@[i] as int,
                    )
                &&& fields.temperature() == temperature@
                &&& fields.humidity() == humidity@
                &&& fields.precipitation() == precipitation@
            },
    {
        if elevation.len() != CHUNK_S2 || temperature.len() != CHUNK_S2 || humidity.len()
            != CHUNK_S2 || precipitation.len() != CHUNK_S2 {
            return None;
        }
        let mut heights: Vec<i32> = Vec::new();
        let mut i: usize = 0;
        while i < CHUNK_S2
            invariant
                i <= CHUNK_S2,
                elevation@.len() == CHUNK_S2,
                heights@.len() == i,
                forall|j: int|
                    0 <= j < i ==> #[trigger] heights@[j] == spec_height_of(elevation@[j] as int),
            decreases CHUNK_S2 - i,
        {
            heights.push(height_of(elevation[i]));
            i += 1;
        }
        Some(Fields { heights, temperature, humidity, precipitation })
    }

    /// The terrain height of the vertical line at place `i`.
    pub fn height(&self, i: usize) -> (h: i32)
        requires
            self.wf(),
            i < CHUNK_S2,
        ensures
            h == self.heights()[i as int],
            0 <= h <= MAX_GEN_HEIGHT,
    {
        self.heights[i]
    }

    /// The temperature of the vertical line at place `i`.
    pub fn temperature_at(&self, i: usize) -> (t: i32)
        requires
            self.wf(),
            i < CHUNK_S2,
        ensures
            t == self.temperature()[i as int],
    {
        self.temperature[i]
    }

    /// The humidity of the vertical line at place `i`.
    pub fn humidity_at(&self, i: usize) -> (h: i32)
        requires
            self.wf(),
            i < CHUNK_S2,
        ensures
            h == self.humidity()[i as int],
    {
        self.humidity[i]
    }

    /// The precipitation of the vertical line at place `i`.
    pub fn precipitation_at(&self, i: usize) -> (p: i32)
        requires
            self.wf(),
            i < CHUNK_S2,
        ensures
            p == self.precipitation()[i as int],
    {
        self.precipitation[i]
    }
}

} // verus!
