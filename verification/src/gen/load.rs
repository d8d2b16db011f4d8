use super::fields::UNIT;
use super::table::{Condition, ConditionTable};
use crate::blocs::bloc::Bloc;
use crate::blocs::tree::Tree;
use vstd::array::array_fill_for_copy_types;
use vstd::prelude::*;
use vstd::slice::slice_subrange;
use vstd::string::StringSliceAdditionalSpecFns;

verus! {

/// The byte that ends a line.
pub const NEWLINE: u8 = 10;

/// The byte that parts the columns of a line.
pub const COMMA: u8 = 44;

/// The minus sign.
pub const MINUS: u8 = 45;

/// The decimal point.
pub const POINT: u8 = 46;

/// The digit zero; the other digits follow it.
pub const ZERO: u8 = 48;

/// The digit nine.
pub const NINE: u8 = 57;

/// What is wrong with a line of a table.
#[derive(Clone, Copy, Debug, PartialEq, Eq, Structural)]
pub enum Malformed {
    /// The line has not one column for each condition and one for the label.
    Arity,
    /// The column of this number, counted from 0, is no decimal number that fits.
    Number(usize),
    /// The last column is no name of a label.
    Label,
}

/// The first line of a table that could not be read, counted from 1, and what is wrong
/// with it.
#[derive(Clone, Copy, Debug, PartialEq, Eq, Structural)]
pub struct DataFormatError {
    pub line: usize,
    pub reason: Malformed,
}

/// What a table can have as outcomes: values that have names.
pub trait Label: Sized {
    /// The label that `name` is the name of, if it is one.
    spec fn spec_from_name(name: Seq<u8>) -> Option<Self>;

    /// The label that `name` is the name of, if it is one.
    fn from_name(name: &[u8]) -> (label: Option<Self>)
        ensures
            label == Self::spec_from_name(name@),
    ;
}

/// The pieces of `s` between the bytes `sep`, in order: one more than `sep` occurs in `s`.
pub open spec fn spec_split(s: Seq<u8>, sep: u8) -> Seq<Seq<u8>>
    decreases s.len(),
{
    if s.len() == 0 {
        seq![Seq::<u8>::empty()]
    } else {
        let before = spec_split(s.drop_last(), sep);
        if s.last() == sep {
            before.push(Seq::<u8>::empty())
        } else {
            before.update(before.len() - 1, before.last().push(s.last()))
        }
    }
}

/// The contents of byte vectors.
pub open spec fn views(parts: Seq<Vec<u8>>) -> Seq<Seq<u8>> {
    Seq::new(parts.len(), |i: int| parts[i]@)
}

/// Whether `b` is a decimal digit.
pub open spec fn is_digit(b: u8) -> bool {
    ZERO <= b <= NINE
}

/// Whether `s` holds decimal digits only.
pub open spec fn all_digits(s: Seq<u8>) -> bool {
    forall|i: int| 0 <= i < s.len() ==> is_digit(#[trigger] s[i])
}

/// The number that the decimal digits `s` write.
pub open spec fn digits_value(s: Seq<u8>) -> int
    decreases s.len(),
{
    if s.len() == 0 {
        0
    } else {
        digits_value(s.drop_last()) * 10 + (s.last() - ZERO)
    }
}

/// The first six of the decimals `s`, with zeros for those that are missing.
pub open spec fn six_decimals(s: Seq<u8>) -> Seq<u8> {
    Seq::new(
        6,
        |j: int|
            if j < s.len() {
                s[j]
            } else {
                ZERO
            },
    )
}

/// The number in fixed point that `s` writes as a decimal number: digits, then, if a
/// point follows, at least one decimal; a minus sign may stand in front. Decimals after
/// the sixth are dropped. `None` where `s` is not of this form or the number does not
/// fit in an `i32`.
pub open spec fn spec_parse_fixed(s: Seq<u8>) -> Option<i32> {
    let negative = s.len() > 0 && s[0] == MINUS;
    let body = if negative {
        s.subrange(1, s.len() as int)
    } else {
        s
    };
    let parts = spec_split(body, POINT);
    if parts.len() > 2 || parts[0].len() == 0 || !all_digits(parts[0]) {
        None
    } else if parts.len() == 2 && (parts[1].len() == 0 || !all_digits(parts[1])) {
        None
    } else {
        let magnitude = digits_value(parts[0]) * UNIT + if parts.len() == 2 {
            digits_value(six_decimals(parts[1]))
        } else {
            0
        };
        let value = if negative {
            -magnitude
        } else {
            magnitude
        };
        if i32::MIN <= value <= i32::MAX {
            Some(value as i32)
        } else {
            None
        }
    }
}

/// The first of the columns before column `k` that holds no number, if there is one.
pub open spec fn first_bad_number(cells: Seq<Seq<u8>>, k: int) -> Option<int>
    decreases k,
{
    if k <= 0 {
        None
    } else {
        match first_bad_number(cells, k - 1) {
            Some(bad) => Some(bad),
            None => if spec_parse_fixed(cells[k - 1]) is None {
                Some(k - 1)
            } else {
                None
            },
        }
    }
}

/// The conditions and the label that a line with `n` conditions holds: `n` numbers and a
/// name, parted by commas; or what is wrong with the line, the first wrong column counting.
pub open spec fn spec_parse_row<L: Label>(line: Seq<u8>, n: int) -> Result<
    (Seq<i32>, L),
    Malformed,
> {
    let cells = spec_split(line, COMMA);
    if cells.len() != n + 1 {
        Err(Malformed::Arity)
    } else {
        match first_bad_number(cells, n) {
            Some(bad) => Err(Malformed::Number(bad as usize)),
            None => match L::spec_from_name(cells[n]) {
                None => Err(Malformed::Label),
                Some(label) => Ok(
                    (Seq::new(n as nat, |k: int| spec_parse_fixed(cells[k]).unwrap()), label),
                ),
            },
        }
    }
}

/// The rows that the first `upto` of `lines` hold, in order, lines without any byte being
/// passed over; or the first line that is wrong.
pub open spec fn spec_parse_rows<L: Label>(lines: Seq<Seq<u8>>, n: int, upto: int) -> Result<
    Seq<(Seq<i32>, L)>,
    DataFormatError,
>
    decreases upto,
{
    if upto <= 0 {
        Ok(Seq::empty())
    } else {
        match spec_parse_rows::<L>(lines, n, upto - 1) {
            Err(e) => Err(e),
            Ok(rows) => if lines[upto - 1].len() == 0 {
                Ok(rows)
            } else {
                match spec_parse_row::<L>(lines[upto - 1], n) {
                    Err(reason) => Err(DataFormatError { line: upto as usize, reason }),
                    Ok(row) => Ok(rows.push(row)),
                }
            },
        }
    }
}

/// The rows that the text of a table with `n` conditions holds, one on each line that is
/// not empty; or the first line that is wrong.
pub open spec fn spec_parse_table<L: Label>(text: Seq<u8>, n: int) -> Result<
    Seq<(Seq<i32>, L)>,
    DataFormatError,
> {
    spec_parse_rows::<L>(spec_split(text, NEWLINE), n, spec_split(text, NEWLINE).len() as int)
}

/// Whether the entries of a table are the given rows.
pub open spec fn same_rows<L, const N: usize>(
    table: Seq<Condition<L, N>>,
    rows: Seq<(Seq<i32>, L)>,
) -> bool {
    &&& table.len() == rows.len()
    &&& forall|i: int|
        0 <= i < table.len() ==> (#[trigger] table[i]).features@ == rows[i].0 && table[i].outcome
            == rows[i].1
}

/// The number that digits write is not negative.
pub proof fn lemma_digits_value_nonneg(s: Seq<u8>)
    requires
        all_digits(s),
    ensures
        0 <= digits_value(s),
    decreases s.len(),
{
    if s.len() > 0 {
        lemma_digits_value_nonneg(s.drop_last());
    }
}

/// The number that digits write is at least the number that the first `k` of them write.
pub proof fn lemma_digits_value_grows(s: Seq<u8>, k: int)
    requires
        all_digits(s),
        0 <= k <= s.len(),
    ensures
        0 <= digits_value(s.take(k)) <= digits_value(s),
    decreases s.len() - k,
{
    lemma_digits_value_nonneg(s.take(k));
    if k < s.len() {
        lemma_digits_value_grows(s, k + 1);
        assert(s.take(k + 1).drop_last() =~= s.take(k));
    } else {
        assert(s.take(k) =~= s);
    }
}

/// Six digits write a number below a million.
pub proof fn lemma_six_digits_bound(s: Seq<u8>, k: int)
    requires
        all_digits(s),
        0 <= k <= s.len(),
        k <= 6,
    ensures
        0 <= digits_value(s.take(k)),
        k == 0 ==> digits_value(s.take(k)) < 1,
        k == 1 ==> digits_value(s.take(k)) < 10,
        k == 2 ==> digits_value(s.take(k)) < 100,
        k == 3 ==> digits_value(s.take(k)) < 1_000,
        k == 4 ==> digits_value(s.take(k)) < 10_000,
        k == 5 ==> digits_value(s.take(k)) < 100_000,
        k == 6 ==> digits_value(s.take(k)) < 1_000_000,
    decreases k,
{
    if k > 0 {
        lemma_six_digits_bound(s, k - 1);
        assert(s.take(k).drop_last() =~= s.take(k - 1));
    }
}

/// Once a column that holds no number is found, it stays the first such column.
pub proof fn lemma_first_bad_stays(cells: Seq<Seq<u8>>, k: int, n: int)
    requires
        k <= n,
        first_bad_number(cells, k) is Some,
    ensures
        first_bad_number(cells, n) == first_bad_number(cells, k),
    decreases n - k,
{
    if k < n {
        lemma_first_bad_stays(cells, k, n - 1);
    }
}

/// Once a line is wrong, it stays the first wrong line.
pub proof fn lemma_rows_error_stays<L: Label>(lines: Seq<Seq<u8>>, n: int, upto: int, all: int)
    requires
        upto <= all,
        spec_parse_rows::<L>(lines, n, upto) is Err,
    ensures
        spec_parse_rows::<L>(lines, n, all) == spec_parse_rows::<L>(lines, n, upto),
    decreases all - upto,
{
    if upto < all {
        lemma_rows_error_stays::<L>(lines, n, upto, all - 1);
    }
}

/// Whether two runs of bytes hold the same bytes.
pub fn same_bytes(a: &[u8], b: &[u8]) -> (same: bool)
    ensures
        same == (a@ == b@),
{
    if a.len() != b.len() {
        return false;
    }
    let mut i: usize = 0;
    while i < a.len()
        invariant
            i <= a@.len(),
            a@.len() == b@.len(),
            forall|j: int| 0 <= j < i ==> a@[j] == b@[j],
        decreases a@.len() - i,
    {
        if a[i] != b[i] {
            return false;
        }
        i += 1;
    }
    assert(a@ =~= b@);
    true
}

/// The pieces of `s` between the bytes `sep`, in order.
pub fn split(s: &[u8], sep: u8) -> (parts: Vec<Vec<u8>>)
    ensures
        views(parts@) == spec_split(s@, sep),
        parts@.len() >= 1,
{
    let mut parts: Vec<Vec<u8>> = Vec::new();
    let mut piece: Vec<u8> = Vec::new();
    let mut i: usize = 0;
    assert(s@.take(0) =~= Seq::<u8>::empty());
    assert(views(parts@).push(piece@) =~= seq![Seq::<u8>::empty()]);
    while i < s.len()
        invariant
            i <= s@.len(),
            views(parts@).push(piece@) == spec_split(s@.take(i as int), sep),
        decreases s@.len() - i,
    {
        let ghost before = views(parts@).push(piece@);
        let b = s[i];
        proof {
            assert(s@.take(i + 1).drop_last() =~= s@.take(i as int));
            assert(s@.take(i + 1).last() == b);
        }
        if b == sep {
            parts.push(piece);
            piece = Vec::new();
            assert(views(parts@).push(piece@) =~= before.push(Seq::<u8>::empty()));
        } else {
            piece.push(b);
            assert(views(parts@).push(piece@) =~= before.update(
                before.len() - 1,
                before.last().push(b),
            ));
        }
        i += 1;
    }
    let ghost before = views(parts@).push(piece@);
    parts.push(piece);
    proof {
        assert(s@.take(s@.len() as int) =~= s@);
        assert(views(parts@) =~= before);
    }
    parts
}

/// The number that the digits `s` write, where there is at least one digit, nothing but
/// digits, and the number is at most 2147: beyond that no number fits in fixed point.
fn whole_part(s: &[u8]) -> (r: Option<u64>)
    ensures
        r == if s@.len() > 0 && all_digits(s@) && digits_value(s@) <= 2147 {
            Some(digits_value(s@) as u64)
        } else {
            None
        },
        r matches Some(whole) ==> whole == digits_value(s@) && whole <= 2147,
{
    if s.len() == 0 {
        return None;
    }
    let mut acc: u64 = 0;
    let mut i: usize = 0;
    assert(s@.take(0) =~= Seq::<u8>::empty());
    while i < s.len()
        invariant
            i <= s@.len(),
            all_digits(s@.take(i as int)),
            acc == digits_value(s@.take(i as int)),
            acc <= 2147,
        decreases s@.len() - i,
    {
        let b = s[i];
        proof {
            assert(s@.take(i + 1).drop_last() =~= s@.take(i as int));
            assert(s@.take(i + 1).last() == b);
        }
        if b < ZERO || b > NINE {
            assert(!is_digit(s@[i as int]));
            return None;
        }
        acc = acc * 10 + (b - ZERO) as u64;
        assert(all_digits(s@.take(i + 1))) by {
            assert forall|j: int| 0 <= j < i + 1 implies is_digit(#[trigger] s@.take(i + 1)[j]) by {
                if j < i {
                    assert(s@.take(i as int)[j] == s@[j]);
                }
            }
        }
        if acc > 2147 {
            proof {
                if all_digits(s@) {
                    lemma_digits_value_grows(s@, i + 1);
                }
            }
            return None;
        }
        i += 1;
    }
    proof {
        assert(s@.take(s@.len() as int) =~= s@);
    }
    Some(acc)
}

/// The number that the first six of the decimals `s` write, with zeros for those that are
/// missing, where there is at least one decimal and nothing but digits.
fn fraction(s: &[u8]) -> (r: Option<u64>)
    ensures
        r == if s@.len() > 0 && all_digits(s@) {
            Some(digits_value(six_decimals(s@)) as u64)
        } else {
            None
        },
        r matches Some(f) ==> f == digits_value(six_decimals(s@)) && f < 1_000_000,
{
    if s.len() == 0 {
        return None;
    }
    let mut i: usize = 0;
    while i < s.len()
        invariant
            i <= s@.len(),
            forall|j: int| 0 <= j < i ==> is_digit(#[trigger] s@[j]),
        decreases s@.len() - i,
    {
        let b = s[i];
        if b < ZERO || b > NINE {
            assert(!is_digit(s@[i as int]));
            return None;
        }
        i += 1;
    }
    let ghost six = six_decimals(s@);
    assert(all_digits(six));
    let mut acc: u64 = 0;
    let mut k: usize = 0;
    assert(six.take(0) =~= Seq::<u8>::empty());
    while k < 6
        invariant
            k <= 6,
            six == six_decimals(s@),
            all_digits(six),
            all_digits(s@),
            acc == digits_value(six.take(k as int)),
            acc < 1_000_000,
        decreases 6 - k,
    {
        let d: u8 = if k < s.len() {
            s[k] - ZERO
        } else {
            0
        };
        proof {
            assert(six.take(k + 1).drop_last() =~= six.take(k as int));
            assert(six.take(k + 1).last() == d + ZERO);
            lemma_six_digits_bound(six, k as int);
            lemma_six_digits_bound(six, k + 1);
        }
        acc = acc * 10 + d as u64;
        k += 1;
    }
    proof {
        assert(six.take(6) =~= six);
    }
    Some(acc)
}

/// Reads a decimal number into fixed point.
pub fn parse_fixed(s: &[u8]) -> (r: Option<i32>)
    ensures
        r == spec_parse_fixed(s@),
{
    let negative = s.len() > 0 && s[0] == MINUS;
    let body = if negative {
        slice_subrange(s, 1, s.len())
    } else {
        s
    };
    let parts = split(body, POINT);
    if parts.len() > 2 {
        return None;
    }
    assert(views(parts@)[0] == parts@[0]@);
    let whole = match whole_part(parts[0].as_slice()) {
        None => {
            proof {
                if parts@.len() == 2 && all_digits(parts@[1]@) {
                    lemma_digits_value_nonneg(six_decimals(parts@[1]@));
                }
            }
            return None;
        },
        Some(whole) => whole,
    };
    let decimals = if parts.len() == 2 {
        assert(views(parts@)[1] == parts@[1]@);
        match fraction(parts[1].as_slice()) {
            None => {
                return None;
            },
            Some(decimals) => decimals,
        }
    } else {
        0
    };
    let magnitude: i64 = (whole * 1_000_000 + decimals) as i64;
    let value: i64 = if negative {
        -magnitude
    } else {
        magnitude
    };
    if value < i32::MIN as i64 || value > i32::MAX as i64 {
        None
    } else {
        Some(value as i32)
    }
}

/// Reads one line of a table with `N` conditions.
pub fn parse_row<L: Label, const N: usize>(line: &[u8]) -> (r: Result<([i32; N], L), Malformed>)
    ensures
        match r {
            Ok((features, label)) => spec_parse_row::<L>(line@, N as int) == Ok::<
                (Seq<i32>, L),
                Malformed,
            >((features@, label)),
            Err(reason) => spec_parse_row::<L>(line@, N as int) == Err::<
                (Seq<i32>, L),
                Malformed,
            >(reason),
        },
{
    let cells = split(line, COMMA);
    if cells.len() - 1 != N {
        return Err(Malformed::Arity);
    }
    let mut features: [i32; N] = array_fill_for_copy_types(0i32);
    let mut k: usize = 0;
    while k < N
        invariant
            k <= N,
            cells@.len() == N + 1,
            views(cells@) == spec_split(line@, COMMA),
            features@.len() == N,
            first_bad_number(views(cells@), k as int) is None,
            forall|j: int|
                0 <= j < k ==> spec_parse_fixed(#[trigger] views(cells@)[j]) == Some(features@[j]),
        decreases N - k,
    {
        assert(views(cells@)[k as int] == cells@[k as int]@);
        match parse_fixed(cells[k].as_slice()) {
            None => {
                proof {
                    lemma_first_bad_stays(views(cells@), k + 1, N as int);
                }
                return Err(Malformed::Number(k));
            },
            Some(value) => {
                features[k] = value;
            },
        }
        k += 1;
    }
    assert(views(cells@)[N as int] == cells@[N as int]@);
    match L::from_name(cells[N].as_slice()) {
        None => Err(Malformed::Label),
        Some(label) => {
            proof {
                let row = Seq::new(N as nat, |k: int| spec_parse_fixed(views(cells@)[k]).unwrap());
                assert(features@ =~= row);
            }
            Ok((features, label))
        },
    }
}

impl<L: Label, const N: usize> ConditionTable<L, N> {
    /// Reads a table from its text: one entry on each line that is not empty, written as
    /// its `N` conditions and the name of its outcome, parted by commas. The entries stand
    /// in the table in the order of their lines. Fails on the first line that is not of
    /// this form.
    pub fn from_csv(text: &[u8]) -> (r: Result<Self, DataFormatError>)
        ensures
            match r {
                Ok(table) => spec_parse_table::<L>(text@, N as int) matches Ok(rows) && same_rows(
                    table@,
                    rows,
                ),
                Err(e) => spec_parse_table::<L>(text@, N as int) == Err::<
                    Seq<(Seq<i32>, L)>,
                    DataFormatError,
                >(e),
            },
    {
        let lines = split(text, NEWLINE);
        let mut table: Self = ConditionTable::new();
        let mut i: usize = 0;
        while i < lines.len()
            invariant
                i <= lines@.len(),
                views(lines@) == spec_split(text@, NEWLINE),
                spec_parse_rows::<L>(views(lines@), N as int, i as int) matches Ok(rows)
                    && same_rows(table@, rows),
            decreases lines@.len() - i,
        {
            assert(views(lines@)[i as int] == lines@[i as int]@);
            if lines[i].len() > 0 {
                match parse_row::<L, N>(lines[i].as_slice()) {
                    Err(reason) => {
                        proof {
                            lemma_rows_error_stays::<L>(
                                views(lines@),
                                N as int,
                                i + 1,
                                lines@.len() as int,
                            );
                        }
                        return Err(DataFormatError { line: i + 1, reason });
                    },
                    Ok((features, outcome)) => {
                        table.push(features, outcome);
                    },
                }
            }
            i += 1;
        }
        Ok(table)
    }
}

impl Label for Bloc {
    open spec fn spec_from_name(name: Seq<u8>) -> Option<Bloc> {
        if name == "Air".spec_bytes() {
            Some(Bloc::Air)
        } else if name == "Dirt".spec_bytes() {
            Some(Bloc::Dirt)
        } else if name == "Grass".spec_bytes() {
            Some(Bloc::Grass)
        } else if name == "Stone".spec_bytes() {
            Some(Bloc::Stone)
        } else if name == "Granite".spec_bytes() {
            Some(Bloc::Granite)
        } else if name == "Sand".spec_bytes() {
            Some(Bloc::Sand)
        } else if name == "Sandstone".spec_bytes() {
            Some(Bloc::Sandstone)
        } else if name == "Mud".spec_bytes() {
            Some(Bloc::Mud)
        } else if name == "Podzol".spec_bytes() {
            Some(Bloc::Podzol)
        } else if name == "Snow".spec_bytes() {
            Some(Bloc::Snow)
        } else if name == "Ice".spec_bytes() {
            Some(Bloc::Ice)
        } else if name == "Log".spec_bytes() {
            Some(Bloc::Log)
        } else if name == "Leaves".spec_bytes() {
            Some(Bloc::Leaves)
        } else {
            None
        }
    }

    fn from_name(name: &[u8]) -> (label: Option<Bloc>) {
        if same_bytes(name, "Air".as_bytes()) {
            Some(Bloc::Air)
        } else if same_bytes(name, "Dirt".as_bytes()) {
            Some(Bloc::Dirt)
        } else if same_bytes(name, "Grass".as_bytes()) {
            Some(Bloc::Grass)
        } else if same_bytes(name, "Stone".as_bytes()) {
            Some(Bloc::Stone)
        } else if same_bytes(name, "Granite".as_bytes()) {
            Some(Bloc::Granite)
        } else if same_bytes(name, "Sand".as_bytes()) {
            Some(Bloc::Sand)
        } else if same_bytes(name, "Sandstone".as_bytes()) {
            Some(Bloc::Sandstone)
        } else if same_bytes(name, "Mud".as_bytes()) {
            Some(Bloc::Mud)
        } else if same_bytes(name, "Podzol".as_bytes()) {
            Some(Bloc::Podzol)
        } else if same_bytes(name, "Snow".as_bytes()) {
            Some(Bloc::Snow)
        } else if same_bytes(name, "Ice".as_bytes()) {
            Some(Bloc::Ice)
        } else if same_bytes(name, "Log".as_bytes()) {
            Some(Bloc::Log)
        } else if same_bytes(name, "Leaves".as_bytes()) {
            Some(Bloc::Leaves)
        } else {
            None
        }
    }
}

impl Label for Tree {
    open spec fn spec_from_name(name: Seq<u8>) -> Option<Tree> {
        if name == "Oak".spec_bytes() {
            Some(Tree::Oak)
        } else if name == "Spruce".spec_bytes() {
            Some(Tree::Spruce)
        } else if name == "Birch".spec_bytes() {
            Some(Tree::Birch)
        } else if name == "Acacia".spec_bytes() {
            Some(Tree::Acacia)
        } else if name == "Palm".spec_bytes() {
            Some(Tree::Palm)
        } else if name == "Cypress".spec_bytes() {
            Some(Tree::Cypress)
        } else if name == "Sequoia".spec_bytes() {
            Some(Tree::Sequoia)
        } else if name == "Baobab".spec_bytes() {
            Some(Tree::Baobab)
        } else if name == "Cactus".spec_bytes() {
            Some(Tree::Cactus)
        } else if name == "Bamboo".spec_bytes() {
            Some(Tree::Bamboo)
        } else {
            None
        }
    }

    fn from_name(name: &[u8]) -> (label: Option<Tree>) {
        if same_bytes(name, "Oak".as_bytes()) {
            Some(Tree::Oak)
        } else if same_bytes(name, "Spruce".as_bytes()) {
            Some(Tree::Spruce)
        } else if same_bytes(name, "Birch".as_bytes()) {
            Some(Tree::Birch)
        } else if same_bytes(name, "Acacia".as_bytes()) {
            Some(Tree::Acacia)
        } else if same_bytes(name, "Palm".as_bytes()) {
            Some(Tree::Palm)
        } else if same_bytes(name, "Cypress".as_bytes()) {
            Some(Tree::Cypress)
        } else if same_bytes(name, "Sequoia".as_bytes()) {
            Some(Tree::Sequoia)
        } else if same_bytes(name, "Baobab".as_bytes()) {
            Some(Tree::Baobab)
        } else if same_bytes(name, "Cactus".as_bytes()) {
            Some(Tree::Cactus)
        } else if same_bytes(name, "Bamboo".as_bytes()) {
            Some(Tree::Bamboo)
        } else {
            None
        }
    }
}

} // verus!
