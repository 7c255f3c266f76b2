//! The tagged lookup table: one row for each integer of `0..=RANGE`, tagged
//! by the integer's bit length.

use crate::backend::{
    assign_cell, lookup_table_column, setup_state, table_cells, Setup, SetupState, TableRegion,
};
use crate::error::AssignError;
use halo2_proofs::plonk::TableColumn;
use vstd::arithmetic::power2::*;
use vstd::prelude::*;

verus! {

/// The floor of the binary logarithm of `n`, for `n` of at least one.
pub open spec fn floor_log2(n: nat) -> nat
    decreases n,
{
    if n <= 1 {
        0
    } else {
        1 + floor_log2(n / 2)
    }
}

/// The tag that the table gives a value: the floor of its binary logarithm,
/// but one for the value zero.
pub open spec fn tag_of(value: nat) -> nat {
    if value == 0 {
        1
    } else {
        floor_log2(value)
    }
}

/// A row of the table.
pub struct TableRow {
    pub tag: int,
    pub value: int,
}

/// The rows of the table that covers `0..=range`, in the order in which they
/// are loaded: the row at offset `value` holds `value` and its tag.
pub open spec fn table_rows(range: nat) -> Seq<TableRow> {
    Seq::new(range + 1, |value: int| TableRow { tag: tag_of(value as nat) as int, value })
}

/// Whether the pair of a tag and a value is a row of the table that covers
/// `0..=range`: the condition that the lookup puts on a row where it is
/// switched on.
pub open spec fn lookup_holds(range: nat, tag: int, value: int) -> bool {
    table_rows(range).contains(TableRow { tag, value })
}

/// The cells that hold `rows`, by column and offset: the row at an offset has
/// its tag in the tag column and its value in the value column.  Where both
/// columns are one and the same, a cell holds the value, which is written
/// after the tag.
pub open spec fn cells_of(num_bits: TableColumn, value: TableColumn, rows: Seq<TableRow>) -> Map<
    (TableColumn, int),
    int,
> {
    Map::new(
        |cell: (TableColumn, int)|
            (cell.0 == num_bits || cell.0 == value) && 0 <= cell.1 < rows.len(),
        |cell: (TableColumn, int)|
            if cell.0 == value {
                rows[cell.1].value
            } else {
                rows[cell.1].tag
            },
    )
}

/// The floor of the binary logarithm is the exponent of the greatest power
/// of two that its argument reaches.
pub proof fn lemma_floor_log2_bounds(n: nat)
    requires
        n >= 1,
    ensures
        pow2(floor_log2(n)) <= n < pow2(floor_log2(n) + 1),
    decreases n,
{
    if n <= 1 {
        lemma2_to64();
    } else {
        lemma_floor_log2_bounds(n / 2);
        lemma_pow2_unfold(floor_log2(n));
        lemma_pow2_unfold(floor_log2(n) + 1);
    }
}

/// No other exponent brackets `n` between two neighbouring powers of two.
pub proof fn lemma_floor_log2_unique(n: nat, k: nat)
    requires
        pow2(k) <= n < pow2(k + 1),
    ensures
        floor_log2(n) == k,
{
    lemma_pow2_pos(k);
    lemma_floor_log2_bounds(n);
    let found = floor_log2(n);
    if found < k {
        if found + 1 < k {
            lemma_pow2_strictly_increases(found + 1, k);
        }
    } else if k < found {
        if k + 1 < found {
            lemma_pow2_strictly_increases(k + 1, found);
        }
    }
}

/// The table that covers `0..=range` has `range + 1` rows.  Its first row
/// pairs the value zero with the tag one; the row at every other offset
/// `value` pairs `value` with the floor of its binary logarithm.
pub proof fn lemma_table_rows(range: nat)
    ensures
        table_rows(range).len() == range + 1,
        table_rows(range)[0] == (TableRow { tag: 1, value: 0 }),
        forall|value: int|
            1 <= value <= range ==> {
                let row = #[trigger] table_rows(range)[value];
                &&& row.value == value
                &&& row.tag == floor_log2(value as nat)
                &&& pow2(row.tag as nat) <= value < pow2((row.tag + 1) as nat)
            },
{
    assert forall|value: int| 1 <= value <= range implies {
        let row = #[trigger] table_rows(range)[value];
        &&& row.value == value
        &&& row.tag == floor_log2(value as nat)
        &&& pow2(row.tag as nat) <= value < pow2((row.tag + 1) as nat)
    } by {
        lemma_floor_log2_bounds(value as nat);
    }
}

/// Completeness of the lookup: every value of `0..=range`, paired with the
/// tag that the table gives it, is a row of the table.
pub proof fn lemma_lookup_complete(range: nat, value: int)
    requires
        0 <= value <= range,
    ensures
        lookup_holds(range, tag_of(value as nat) as int, value),
{
    let row = TableRow { tag: tag_of(value as nat) as int, value };
    assert(table_rows(range)[value] == row);
}

/// Soundness of the lookup: a pair is a row of the table only if the value
/// is one of `0..=range` and the tag is the one that the table gives it.  A
/// value paired with any other tag is no row.
pub proof fn lemma_lookup_sound(range: nat, tag: int, value: int)
    ensures
        lookup_holds(range, tag, value) ==> 0 <= value <= range && tag == tag_of(value as nat),
{
}

/// The floor of the binary logarithm of a positive integer.
pub fn log2_floor(num: usize) -> (pow: u32)
    requires
        num > 0,
    ensures
        pow == floor_log2(num as nat),
        pow2(pow as nat) <= num < pow2((pow + 1) as nat),
{
    let mut pow: u32 = 0;
    let mut rest: usize = num;
    proof {
        lemma2_to64();
    }
    while rest > 1
        invariant
            rest >= 1,
            floor_log2(num as nat) == pow + floor_log2(rest as nat),
            rest * pow2(pow as nat) <= num,
        decreases rest,
    {
        proof {
            let scale = pow2(pow as nat) as int;
            lemma_pow2_unfold((pow + 1) as nat);
            assert(2 * scale <= rest * scale) by (nonlinear_arith)
                requires
                    rest >= 2,
                    scale >= 0,
            ;
            if pow + 1 >= 64 {
                lemma2_to64_rest();
                if pow + 1 > 64 {
                    lemma_pow2_strictly_increases(64, (pow + 1) as nat);
                }
            }
            assert((rest / 2) * (2 * scale) <= rest * scale) by (nonlinear_arith)
                requires
                    rest >= 0,
                    scale >= 0,
            ;
        }
        rest = rest / 2;
        pow = pow + 1;
    }
    proof {
        lemma_floor_log2_bounds(num as nat);
    }
    pow
}

/// The tag that the table gives `value`.  A prover that checks `value`
/// by lookup supplies this tag.
pub fn tag(value: usize) -> (tag: u64)
    ensures
        tag == tag_of(value as nat),
{
    if value == 0 {
        1
    } else {
        log2_floor(value) as u64
    }
}

/// What is absent from a sequence with one more element is absent from the
/// sequence, and is not that element.
pub proof fn lemma_absent_before_push<A>(items: Seq<A>, last: A, other: A)
    requires
        !items.push(last).contains(other),
    ensures
        !items.contains(other),
        last != other,
{
    let longer = items.push(last);
    assert(longer[items.len() as int] == last);
    assert forall|i: int| 0 <= i < items.len() implies items[i] != other by {
        assert(longer[i] == items[i]);
    }
}

/// The table over a power of two: `NUM_BITS` is the exponent, and `RANGE`,
/// the power, is the greatest value that the table holds.
#[derive(Clone, Copy, Debug)]
pub struct RangeCheckTable<const NUM_BITS: usize, const RANGE: usize> {
    /// The column of the tags.
    pub num_bits: TableColumn,
    /// The column of the values.
    pub value: TableColumn,
}

impl<const NUM_BITS: usize, const RANGE: usize> RangeCheckTable<NUM_BITS, RANGE> {
    /// Whether the two parameters agree: `RANGE` is two to the power
    /// `NUM_BITS`.
    pub open spec fn parameters_agree() -> bool {
        pow2(NUM_BITS as nat) == RANGE
    }

    /// The two columns differ, as those that `configure` allocates do.
    pub open spec fn wf(self) -> bool {
        self.num_bits != self.value
    }

    /// The cells of the loaded table.
    pub open spec fn contents(self) -> Map<(TableColumn, int), int> {
        cells_of(self.num_bits, self.value, table_rows(RANGE as nat))
    }

    /// Tests whether `RANGE` is two to the power `NUM_BITS`, the condition
    /// under which the table may be configured.
    pub fn check_parameters() -> (agree: bool)
        ensures
            agree == Self::parameters_agree(),
    {
        let mut power: usize = 1;
        let mut exponent: usize = 0;
        proof {
            lemma2_to64();
        }
        while exponent < NUM_BITS
            invariant
                exponent <= NUM_BITS,
                power == pow2(exponent as nat),
            decreases NUM_BITS - exponent,
        {
            proof {
                lemma_pow2_unfold((exponent + 1) as nat);
            }
            if power > usize::MAX / 2 {
                proof {
                    if exponent + 1 < NUM_BITS {
                        lemma_pow2_strictly_increases((exponent + 1) as nat, NUM_BITS as nat);
                    }
                }
                return false;
            }
            power = power * 2;
            exponent += 1;
        }
        power == RANGE
    }

    /// Allocates the two columns of the table: first the column of the tags,
    /// then the column of the values.  They are new, and so they differ.
    ///
    /// The parameters must agree; [`Self::check_parameters`] tests it.
    pub fn configure(meta: &mut Setup) -> (table: Self)
        requires
            Self::parameters_agree(),
        ensures
            table.wf(),
            !setup_state(*old(meta)).table_columns.contains(table.num_bits),
            !setup_state(*old(meta)).table_columns.contains(table.value),
            setup_state(*final(meta)) == (SetupState {
                table_columns: setup_state(*old(meta)).table_columns.push(table.num_bits).push(
                    table.value,
                ),
                ..setup_state(*old(meta))
            }),
    {
        let num_bits = lookup_table_column(meta);
        let value = lookup_table_column(meta);
        proof {
            lemma_absent_before_push(setup_state(*old(meta)).table_columns, num_bits, value);
        }
        Self { num_bits, value }
    }

    /// Loads the table: at each offset `value` of `0..=RANGE`, the tag of
    /// `value` into the tag column and `value` into the value column, in
    /// increasing order of `value`.
    ///
    /// `RANGE` must be below the greatest integer of the machine, as every
    /// power of two is.  Succeeds where the backend accepts every cell, and
    /// stops at the first cell that it refuses.
    pub fn load(&self, table: &mut TableRegion) -> (outcome: Result<(), AssignError>)
        requires
            RANGE < usize::MAX,
        ensures
            outcome is Ok ==> table_cells(*final(table)) == table_cells(
                *old(table),
            ).union_prefer_right(self.contents()),
            outcome matches Err(error) ==> error is Table,
    {
        let ghost before = table_cells(*table);
        match AssignError::table(assign_cell(table, "assign num_bits = 1", self.num_bits, 0, 1)) {
            Ok(()) => {},
            Err(error) => {
                return Err(error);
            },
        }
        match AssignError::table(assign_cell(table, "assign value = 0", self.value, 0, 0)) {
            Ok(()) => {},
            Err(error) => {
                return Err(error);
            },
        }
        assert(table_cells(*table) =~= before.union_prefer_right(
            cells_of(self.num_bits, self.value, table_rows(0)),
        ));
        let mut value: usize = 0;
        while value < RANGE
            invariant
                value <= RANGE < usize::MAX,
                table_cells(*table) == before.union_prefer_right(
                    cells_of(self.num_bits, self.value, table_rows(value as nat)),
                ),
            decreases RANGE - value,
        {
            value += 1;
            let num_bits = log2_floor(value);
            match AssignError::table(
                assign_cell(table, "assign num_bits", self.num_bits, value, num_bits as u64),
            ) {
                Ok(()) => {},
                Err(error) => {
                    return Err(error);
                },
            }
            match AssignError::table(
                assign_cell(table, "assign value", self.value, value, value as u64),
            ) {
                Ok(()) => {},
                Err(error) => {
                    return Err(error);
                },
            }
            assert(table_cells(*table) =~= before.union_prefer_right(
                cells_of(self.num_bits, self.value, table_rows(value as nat)),
            ));
        }
        Ok(())
    }
}

/// What the loaded table holds, read row by row.  Its cells are those of the
/// two columns at the offsets `0..=RANGE`, which makes `RANGE + 1` rows; the
/// row at offset `value` holds `value` in the value column and the tag of
/// `value` in the tag column.
pub proof fn lemma_loaded_rows<const NUM_BITS: usize, const RANGE: usize>(
    table: RangeCheckTable<NUM_BITS, RANGE>,
)
    requires
        table.wf(),
    ensures
        forall|cell: (TableColumn, int)|
            table.contents().dom().contains(cell) <==> (cell.0 == table.num_bits || cell.0
                == table.value) && 0 <= cell.1 <= RANGE,
        forall|value: int|
            0 <= value <= RANGE ==> {
                &&& #[trigger] table.contents()[(table.value, value)] == value
                &&& table.contents()[(table.num_bits, value)] == tag_of(value as nat)
            },
{
}

} // verus!
