use vstd::prelude::*;

verus! {

/// One labelled entry of a table: the conditions under which `outcome` is at home.
pub struct Condition<L, const N: usize> {
    pub features: [i32; N],
    pub outcome: L,
}

/// Sum of the squared differences of the first `n` coordinates of `a` and `b`.
pub open spec fn dist_sq_upto(a: Seq<i32>, b: Seq<i32>, n: int) -> int
    decreases n,
{
    if n <= 0 {
        0
    } else {
        dist_sq_upto(a, b, n - 1) + (a[n - 1] - b[n - 1]) * (a[n - 1] - b[n - 1])
    }
}

/// Square of the Euclidean distance between two points with the same number of coordinates.
pub open spec fn dist_sq(a: Seq<i32>, b: Seq<i32>) -> int {
    dist_sq_upto(a, b, a.len() as int)
}

/// Whether `r` is the square root of `n`, rounded down.
pub open spec fn is_floor_sqrt(n: int, r: int) -> bool {
    0 <= r && r * r <= n < (r + 1) * (r + 1)
}

/// The square root of `n`, rounded down.
pub open spec fn floor_sqrt(n: int) -> int {
    choose|r: int| is_floor_sqrt(n, r)
}

/// Every number that is not negative has a square root rounded down.
pub proof fn lemma_floor_sqrt_exists(n: int)
    requires
        0 <= n,
    ensures
        exists|r: int| is_floor_sqrt(n, r),
        is_floor_sqrt(n, floor_sqrt(n)),
    decreases n,
{
    if n == 0 {
        assert(is_floor_sqrt(0, 0));
    } else {
        lemma_floor_sqrt_exists(n - 1);
        let r = floor_sqrt(n - 1);
        assert(is_floor_sqrt(n - 1, r));
        if n < (r + 1) * (r + 1) {
            assert(is_floor_sqrt(n, r));
        } else {
            assert((r + 2) * (r + 2) == (r + 1) * (r + 1) + 2 * r + 3) by (nonlinear_arith);
            assert(is_floor_sqrt(n, r + 1));
        }
    }
}

/// No number has two square roots rounded down.
pub proof fn lemma_floor_sqrt_unique(n: int, r: int)
    requires
        is_floor_sqrt(n, r),
    ensures
        floor_sqrt(n) == r,
{
    let s = floor_sqrt(n);
    assert(is_floor_sqrt(n, s));
    if s < r {
        assert((s + 1) * (s + 1) <= r * r) by (nonlinear_arith)
            requires
                0 <= s + 1 <= r,
        ;
    }
    if r < s {
        assert((r + 1) * (r + 1) <= s * s) by (nonlinear_arith)
            requires
                0 <= r + 1 <= s,
        ;
    }
}

/// Index of the entry among the first `n` of `rows` that is nearest to `query`; of several
/// at the same distance, the one that stands first.
pub open spec fn nearest_upto<L, const N: usize>(
    rows: Seq<Condition<L, N>>,
    query: Seq<i32>,
    n: int,
) -> int
    decreases n,
{
    if n <= 1 {
        0
    } else {
        let best = nearest_upto(rows, query, n - 1);
        if dist_sq(rows[n - 1].features@, query) < dist_sq(rows[best].features@, query) {
            n - 1
        } else {
            best
        }
    }
}

/// Index of the entry of `rows` that is nearest to `query`; of several at the same
/// distance, the one that stands first.
pub open spec fn nearest<L, const N: usize>(rows: Seq<Condition<L, N>>, query: Seq<i32>) -> int {
    nearest_upto(rows, query, rows.len() as int)
}

/// The entry that `nearest_upto` names is one of the first `n`, no entry among them is
/// nearer to the query, and every entry before it is farther away.
pub proof fn lemma_nearest_upto<L, const N: usize>(
    rows: Seq<Condition<L, N>>,
    query: Seq<i32>,
    n: int,
)
    requires
        1 <= n <= rows.len(),
    ensures
        0 <= nearest_upto(rows, query, n) < n,
        forall|j: int|
            0 <= j < n ==> dist_sq(rows[nearest_upto(rows, query, n)].features@, query)
                <= dist_sq(#[trigger] rows[j].features@, query),
        forall|j: int|
            0 <= j < nearest_upto(rows, query, n) ==> dist_sq(
                rows[nearest_upto(rows, query, n)].features@,
                query,
            ) < dist_sq(#[trigger] rows[j].features@, query),
    decreases n,
{
    if n > 1 {
        lemma_nearest_upto(rows, query, n - 1);
    }
}

/// The squared distance is a sum of squares: it is not negative, and with `n` coordinates
/// it is at most `n` times the square of the widest difference of two `i32`.
pub proof fn lemma_dist_sq_bounds(a: Seq<i32>, b: Seq<i32>, n: int)
    requires
        0 <= n <= a.len(),
        n <= b.len(),
    ensures
        0 <= dist_sq_upto(a, b, n) <= n * 0xffff_fffe_0000_0001,
    decreases n,
{
    if n > 0 {
        lemma_dist_sq_bounds(a, b, n - 1);
        let d = a[n - 1] - b[n - 1];
        assert(0 <= d * d <= 0xffff_fffe_0000_0001) by (nonlinear_arith)
            requires
                -0xffff_ffff <= d <= 0xffff_ffff,
        ;
    }
}

/// Square of the Euclidean distance between two points.
pub fn squared_distance<const N: usize>(a: &[i32; N], b: &[i32; N]) -> (d: u128)
    ensures
        d == dist_sq(a@, b@),
{
    let mut d: u128 = 0;
    let mut i: usize = 0;
    while i < N
        invariant
            i <= N,
            a@.len() == N,
            b@.len() == N,
            d == dist_sq_upto(a@, b@, i as int),
        decreases N - i,
    {
        let diff: i64 = a[i] as i64 - b[i] as i64;
        let gap: u128 = if diff < 0 {
            (-diff) as u128
        } else {
            diff as u128
        };
        proof {
            lemma_dist_sq_bounds(a@, b@, i as int);
            lemma_dist_sq_bounds(a@, b@, i + 1);
            assert(gap * gap == diff * diff) by (nonlinear_arith)
                requires
                    gap == diff || gap == -diff,
            ;
            assert((i + 1) * 0xffff_fffe_0000_0001 <= u128::MAX) by (nonlinear_arith)
                requires
                    i + 1 <= 0xffff_ffff_ffff_ffff,
            ;
        }
        d = d + gap * gap;
        i += 1;
    }
    d
}

/// The square root of `n`, rounded down.
pub fn isqrt(n: u128) -> (r: u64)
    ensures
        r == floor_sqrt(n as int),
        is_floor_sqrt(n as int, r as int),
{
    let mut lo: u128 = 0;
    let mut hi: u128 = 0x1_0000_0000_0000_0000;
    while hi - lo > 1
        invariant
            lo < hi <= 0x1_0000_0000_0000_0000,
            lo * lo <= n < hi * hi,
        decreases hi - lo,
    {
        let mid: u128 = lo + (hi - lo) / 2;
        assert(mid * mid <= 0xffff_ffff_ffff_ffff * 0xffff_ffff_ffff_ffff) by (nonlinear_arith)
            requires
                0 <= mid <= 0xffff_ffff_ffff_ffff,
        ;
        if mid * mid <= n {
            lo = mid;
        } else {
            hi = mid;
        }
    }
    proof {
        lemma_floor_sqrt_unique(n as int, lo as int);
    }
    lo as u64
}

/// A table of labelled conditions, each a point with `N` coordinates, that answers which
/// entry lies nearest to a given point.
pub struct ConditionTable<L, const N: usize> {
    rows: Vec<Condition<L, N>>,
}

impl<L, const N: usize> View for ConditionTable<L, N> {
    type V = Seq<Condition<L, N>>;

    /// The entries, in the order in which they were added.
    closed spec fn view(&self) -> Seq<Condition<L, N>> {
        self.rows@
    }
}

impl<L, const N: usize> ConditionTable<L, N> {
    /// A table without entries.
    pub fn new() -> (table: Self)
        ensures
            table@ == Seq::<Condition<L, N>>::empty(),
    {
        ConditionTable { rows: Vec::new() }
    }

    /// Adds an entry at the end of the table.
    pub fn push(&mut self, features: [i32; N], outcome: L)
        ensures
            final(self)@ == old(self)@.push(Condition { features, outcome }),
    {
        self.rows.push(Condition { features, outcome });
    }

    /// Number of entries.
    pub fn len(&self) -> (n: usize)
        ensures
            n == self@.len(),
    {
        self.rows.len()
    }

    /// Whether the table has no entry.
    pub fn is_empty(&self) -> (empty: bool)
        ensures
            empty == (self@.len() == 0),
    {
        self.rows.len() == 0
    }

    /// The outcome of the entry nearest to `query`, by Euclidean distance, and that
    /// distance rounded down; of several entries at the same distance the one added first.
    /// `None` if and only if the table is empty.
    pub fn closest(&self, query: [i32; N]) -> (r: Option<(&L, u64)>)
        ensures
            r is None <==> self@.len() == 0,
            r matches Some((outcome, distance)) ==> {
                let entry = self@[nearest(self@, query@)];
                &&& *outcome == entry.outcome
                &&& distance == floor_sqrt(dist_sq(entry.features@, query@))
            },
    {
        let n = self.rows.len();
        if n == 0 {
            return None;
        }
        let mut best: usize = 0;
        let mut best_d: u128 = squared_distance(&self.rows[0].features, &query);
        let mut i: usize = 1;
        while i < n
            invariant
                1 <= i <= n,
                n == self@.len(),
                best == nearest_upto(self@, query@, i as int),
                best < i,
                best_d == dist_sq(self@[best as int].features@, query@),
            decreases n - i,
        {
            let d = squared_distance(&self.rows[i].features, &query);
            if d < best_d {
                best = i;
                best_d = d;
            }
            i += 1;
        }
        Some((&self.rows[best].outcome, isqrt(best_d)))
    }
}

} // verus!
