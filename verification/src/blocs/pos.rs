use vstd::prelude::*;

verus! {

/// Side length of a chunk: a column covers `CHUNK_S1` by `CHUNK_S1` cells.
pub const CHUNK_S1: usize = 32;

/// `CHUNK_S1` as a signed coordinate.
pub const CHUNK_S1I: i32 = 32;

/// Number of layers of a column; terrain heights lie in `0..=MAX_GEN_HEIGHT`.
pub const MAX_GEN_HEIGHT: usize = 200;

/// Identifies one of the independent worlds that share the coordinate system.
#[derive(Clone, Copy, Debug, PartialEq, Eq, Hash, Structural)]
pub struct Realm(pub u32);

/// Absolute position of a voxel.
#[derive(Clone, Copy, Debug, PartialEq, Eq, Hash, Structural)]
pub struct BlocPos {
    pub x: i32,
    pub y: i32,
    pub z: i32,
    pub realm: Realm,
}

/// Absolute position of a vertical line of voxels.
#[derive(Clone, Copy, Debug, PartialEq, Eq, Hash, Structural)]
pub struct BlocPos2d {
    pub x: i32,
    pub z: i32,
    pub realm: Realm,
}

/// Coordinate of a column: positions whose `x` and `z`, divided by `CHUNK_S1` and rounded
/// down, give this `x` and `z`.
#[derive(Clone, Copy, Debug, PartialEq, Eq, Hash, Structural)]
pub struct ColPos {
    pub x: i32,
    pub z: i32,
    pub realm: Realm,
}

/// Position inside a column: local `x`, height, local `z`.
pub type ColedPos = (usize, i32, usize);

/// Horizontal position inside a column: local `x`, local `z`.
pub type ColedPos2d = (usize, usize);

/// The chunk coordinate of an absolute coordinate: the quotient by `CHUNK_S1`, rounded down.
pub open spec fn chunk_coord(v: int) -> int {
    v / 32
}

/// The coordinate inside its chunk of an absolute coordinate, in `0..CHUNK_S1`.
pub open spec fn local_coord(v: int) -> int {
    v % 32
}

/// Splits an absolute coordinate into chunk coordinate and local coordinate.
pub fn chunked(v: i32) -> (r: (i32, usize))
    ensures
        r.0 == chunk_coord(v as int),
        r.1 == local_coord(v as int),
        r.1 < CHUNK_S1,
        v == r.0 * CHUNK_S1I + r.1,
{
    let c: i32 = if v >= 0 {
        v / CHUNK_S1I
    } else {
        -((-(v + 1)) / CHUNK_S1I) - 1
    };
    let l: i32 = v - c * CHUNK_S1I;
    (c, l as usize)
}

/// The 32 bits of `v` in two's complement, read as a number that is not negative.
pub open spec fn bits_of(v: i32) -> u64 {
    if v >= 0 {
        v as u64
    } else {
        (v + 0x1_0000_0000) as u64
    }
}

fn bits(v: i32) -> (b: u64)
    ensures
        b == bits_of(v),
{
    if v >= 0 {
        v as u64
    } else {
        (v as i64 + 0x1_0000_0000) as u64
    }
}

/// Multiplier of the mixing step.
pub const MIX_K: u64 = 0x517c_c1b7_2722_0a95;

/// One mixing step: `h` rotated left by five bits, combined with `v` by exclusive or,
/// times `MIX_K`, of which the low 64 bits are kept.
pub open spec fn spec_mix(h: u64, v: u64) -> u64 {
    (((((h % 0x800_0000_0000_0000) * 32 + h / 0x800_0000_0000_0000) as u64) ^ v) * MIX_K
        % 0x1_0000_0000_0000_0000) as u64
}

fn mix(h: u64, v: u64) -> (m: u64)
    ensures
        m == spec_mix(h, v),
{
    let rotated: u64 = (h % 0x800_0000_0000_0000) * 32 + h / 0x800_0000_0000_0000;
    let combined: u64 = rotated ^ v;
    let product: u128 = combined as u128 * MIX_K as u128;
    (product % 0x1_0000_0000_0000_0000) as u64
}

impl ColPos {
    /// Whether the absolute coordinates of all cells of this column fit in an `i32`;
    /// the column of any position is addressable.
    pub open spec fn addressable(self) -> bool {
        &&& -0x400_0000 <= self.x < 0x400_0000
        &&& -0x400_0000 <= self.z < 0x400_0000
    }

    /// Whether the absolute coordinates of all cells of this column fit in an `i32`.
    #[verifier::when_used_as_spec(addressable)]
    pub fn is_addressable(self) -> (yes: bool)
        ensures
            yes == self.addressable(),
    {
        -0x400_0000 <= self.x && self.x < 0x400_0000 && -0x400_0000 <= self.z && self.z
            < 0x400_0000
    }

    /// An integer that stands for this coordinate; distinct coordinates have distinct keys.
    pub open spec fn spec_key(self) -> int {
        self.realm.0 * 0x1_0000_0000_0000_0000 + (self.x + 0x8000_0000) * 0x1_0000_0000 + (self.z
            + 0x8000_0000)
    }

    pub(crate) fn key(&self) -> (k: u128)
        ensures
            k == self.spec_key(),
    {
        let r: u128 = self.realm.0 as u128;
        let x: u128 = (self.x as i64 + 0x8000_0000) as u128;
        let z: u128 = (self.z as i64 + 0x8000_0000) as u128;
        r * 0x1_0000_0000_0000_0000 + x * 0x1_0000_0000 + z
    }

    pub proof fn lemma_key_injective(a: ColPos, b: ColPos)
        requires
            a.spec_key() == b.spec_key(),
        ensures
            a == b,
    {
    }
}

impl BlocPos {
    /// The column that holds this position.
    pub open spec fn spec_col(self) -> ColPos {
        ColPos {
            x: chunk_coord(self.x as int) as i32,
            z: chunk_coord(self.z as int) as i32,
            realm: self.realm,
        }
    }

    /// Where this position lies inside its column.
    pub open spec fn spec_coled(self) -> ColedPos {
        (local_coord(self.x as int) as usize, self.y, local_coord(self.z as int) as usize)
    }

    /// Splits the position into its column and the place inside that column.
    pub fn split(self) -> (r: (ColPos, ColedPos))
        ensures
            r.0 == self.spec_col(),
            r.1 == self.spec_coled(),
            r.0.addressable(),
            r.1.0 < CHUNK_S1,
            r.1.2 < CHUNK_S1,
    {
        let (cx, lx) = chunked(self.x);
        let (cz, lz) = chunked(self.z);
        (ColPos { x: cx, z: cz, realm: self.realm }, (lx, self.y, lz))
    }

    /// The position of the cell `coled` of column `col`.
    pub open spec fn spec_in_col(col: ColPos, coled: ColedPos) -> BlocPos {
        BlocPos {
            x: (col.x * 32 + coled.0) as i32,
            y: coled.1,
            z: (col.z * 32 + coled.2) as i32,
            realm: col.realm,
        }
    }

    /// Puts a column coordinate and a place inside the column together again.
    pub fn in_col(col: ColPos, coled: ColedPos) -> (pos: BlocPos)
        requires
            col.addressable(),
            coled.0 < CHUNK_S1,
            coled.2 < CHUNK_S1,
        ensures
            pos == Self::spec_in_col(col, coled),
            pos.spec_col() == col,
            pos.spec_coled() == coled,
    {
        BlocPos {
            x: col.x * CHUNK_S1I + coled.0 as i32,
            y: coled.1,
            z: col.z * CHUNK_S1I + coled.2 as i32,
            realm: col.realm,
        }
    }
}

impl From<BlocPos> for (ColPos, ColedPos) {
    /// The column of a position and its place inside that column.
    fn from(pos: BlocPos) -> (r: (ColPos, ColedPos)) {
        pos.split()
    }
}

impl vstd::std_specs::convert::FromSpecImpl<BlocPos> for (ColPos, ColedPos) {
    open spec fn obeys_from_spec() -> bool {
        true
    }

    open spec fn from_spec(pos: BlocPos) -> (ColPos, ColedPos) {
        (pos.spec_col(), pos.spec_coled())
    }
}

impl From<BlocPos2d> for (ColPos, ColedPos2d) {
    /// The column of a vertical line and its place inside that column.
    fn from(pos: BlocPos2d) -> (r: (ColPos, ColedPos2d)) {
        pos.split()
    }
}

impl vstd::std_specs::convert::FromSpecImpl<BlocPos2d> for (ColPos, ColedPos2d) {
    open spec fn obeys_from_spec() -> bool {
        true
    }

    open spec fn from_spec(pos: BlocPos2d) -> (ColPos, ColedPos2d) {
        (pos.spec_col(), pos.spec_coled())
    }
}

impl BlocPos2d {
    /// The column that holds this vertical line.
    pub open spec fn spec_col(self) -> ColPos {
        ColPos {
            x: chunk_coord(self.x as int) as i32,
            z: chunk_coord(self.z as int) as i32,
            realm: self.realm,
        }
    }

    /// Where this vertical line stands inside its column.
    pub open spec fn spec_coled(self) -> ColedPos2d {
        (local_coord(self.x as int) as usize, local_coord(self.z as int) as usize)
    }

    /// Splits the position into its column and the place inside that column.
    pub fn split(self) -> (r: (ColPos, ColedPos2d))
        ensures
            r.0 == self.spec_col(),
            r.1 == self.spec_coled(),
            r.0.addressable(),
            r.1.0 < CHUNK_S1,
            r.1.1 < CHUNK_S1,
    {
        let (cx, lx) = chunked(self.x);
        let (cz, lz) = chunked(self.z);
        (ColPos { x: cx, z: cz, realm: self.realm }, (lx, lz))
    }

    /// A number that depends on the position and on `seed` and on nothing else: `seed`,
    /// `x` and `z` are mixed in, in this order, starting from 0.
    pub open spec fn spec_prng(self, seed: i32) -> u64 {
        spec_mix(spec_mix(spec_mix(0, bits_of(seed)), bits_of(self.x)), bits_of(self.z))
    }

    /// A pseudo-random number for this position under `seed`; the same position and seed
    /// give the same number, whatever was asked before.
    pub fn prng(&self, seed: i32) -> (n: u64)
        ensures
            n == self.spec_prng(seed),
    {
        mix(mix(mix(0, bits(seed)), bits(self.x)), bits(self.z))
    }

    /// The position of the vertical line `coled` of column `col`.
    pub open spec fn spec_in_col(col: ColPos, coled: ColedPos2d) -> BlocPos2d {
        BlocPos2d {
            x: (col.x * 32 + coled.0) as i32,
            z: (col.z * 32 + coled.1) as i32,
            realm: col.realm,
        }
    }

    /// Puts a column coordinate and a place inside the column together again.
    pub fn in_col(col: ColPos, coled: ColedPos2d) -> (pos: BlocPos2d)
        requires
            col.addressable(),
            coled.0 < CHUNK_S1,
            coled.1 < CHUNK_S1,
        ensures
            pos == Self::spec_in_col(col, coled),
            pos.spec_col() == col,
            pos.spec_coled() == coled,
    {
        BlocPos2d {
            x: col.x * CHUNK_S1I + coled.0 as i32,
            z: col.z * CHUNK_S1I + coled.1 as i32,
            realm: col.realm,
        }
    }
}

} // verus!
