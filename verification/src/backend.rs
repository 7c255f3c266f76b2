//! The proving backend, as far as the gadget relies on it.
//!
//! Everything in this module is trusted: the types are opaque to the
//! verifier, and each function's contract is believed, not proved.  Each
//! contract restates, over the models below, what the backend's source
//! shows for the one call that the function makes.
//!
//! The field is fixed to the Pallas base field, whose elements the models
//! denote by their canonical integers.

use crate::gate::{range_check_constraints, range_constraints, tagged_lookup_inputs};
use crate::polynomial::{tagged_lookup, Poly};
use halo2_proofs::circuit::{Region, Table, Value};
use halo2_proofs::pasta::Fp;
use halo2_proofs::plonk::{
    Advice, Assigned, Column, ConstraintSystem, Error, Expression, Selector, TableColumn,
    VirtualCells,
};
use halo2_proofs::poly::Rotation;
use vstd::prelude::*;

verus! {

/// An element of the Pallas base field.
#[verifier::external_type_specification]
#[verifier::external_body]
pub struct ExFp(Fp);

/// A selector of the constraint system: a per-row flag that switches a gate
/// or a lookup on.
#[verifier::external_type_specification]
#[verifier::external_body]
pub struct ExSelector(Selector);

/// A fixed column that holds one column of a lookup table.
#[verifier::external_type_specification]
#[verifier::external_body]
pub struct ExTableColumn(TableColumn);

/// The backend's error.
#[verifier::external_type_specification]
#[verifier::external_body]
pub struct ExError(Error);

/// A polynomial expression over the cells of a row.
#[verifier::external_type_specification]
#[verifier::external_body]
#[verifier::reject_recursive_types(F)]
pub struct ExExpression<F>(Expression<F>);

/// A witness value that is known only while a proof is being made.
#[verifier::external_type_specification]
#[verifier::external_body]
#[verifier::reject_recursive_types(V)]
pub struct ExValue<V>(Value<V>);

/// A field element kept as a fraction until the backend evaluates it.
#[verifier::external_type_specification]
#[verifier::external_body]
#[verifier::reject_recursive_types(F)]
pub struct ExAssigned<F>(Assigned<F>);

/// An advice (witness) column, `Column<Advice>` of the backend.
#[verifier::external_body]
#[derive(Debug)]
pub struct AdviceColumn(pub Column<Advice>);

impl Clone for AdviceColumn {
    /// `Column::clone`, which the backend derives: the copy is the same
    /// column.
    #[verifier::external_body]
    fn clone(&self) -> (copy: Self)
        ensures
            copy == *self,
    {
        AdviceColumn(self.0)
    }
}

impl Copy for AdviceColumn {

}

/// The constraint system under construction, `ConstraintSystem<Fp>` of the
/// backend.
#[verifier::external_body]
pub struct Setup<'a>(pub &'a mut ConstraintSystem<Fp>);

/// The cells that a gate or a lookup may query while it is being defined,
/// `VirtualCells<Fp>` of the backend.
#[verifier::external_body]
pub struct Cells<'a, 'b>(pub &'a mut VirtualCells<'b, Fp>);

/// A region of witness rows that is being assigned, `Region<Fp>` of the
/// backend.
#[verifier::external_body]
pub struct WitnessRegion<'r>(pub Region<'r, Fp>);

/// A lookup table that is being loaded, `Table<Fp>` of the backend.
#[verifier::external_body]
pub struct TableRegion<'r>(pub Table<'r, Fp>);

/// A gate, as a constraint system lists it: its name, and its constraints
/// in order, each with its name and its polynomial.
pub struct GateView {
    pub name: Seq<char>,
    pub constraints: Seq<(Seq<char>, Poly)>,
}

/// What a constraint system holds, as far as the gadget relies on it.
pub struct SetupState {
    /// The advice columns that have been allocated.
    pub advice_columns: Set<AdviceColumn>,
    /// The columns that have been allocated for lookup tables, in the order
    /// of their allocation.
    pub table_columns: Seq<TableColumn>,
    /// The selectors that have been allocated, in the order of their
    /// allocation.
    pub selectors: Seq<Selector>,
    /// The gates, in the order in which they were created.
    pub gates: Seq<GateView>,
    /// The lookup arguments in the order in which they were added, each as
    /// its pairs of an input expression and the table column that the input
    /// is looked up in.
    pub lookups: Seq<Seq<(Poly, TableColumn)>>,
}

/// What a region of witness rows holds: the requests that it has accepted.
pub struct RegionState {
    /// The selectors that have been enabled, each with its row offset.
    pub enabled: Set<(Selector, int)>,
    /// The values that have been assigned, by advice column and row offset.
    pub witnessed: Map<(AdviceColumn, int), Value<Assigned<Fp>>>,
}

/// What `Selector::is_simple` returns: whether the selector is a simple one,
/// which may be multiplied only by expressions free of simple selectors.
pub uninterp spec fn is_simple(selector: Selector) -> bool;

/// The tree that an expression holds.  A query is taken by its column and
/// rotation, not by the number under which the constraint system lists it.
pub uninterp spec fn shape(expression: Expression<Fp>) -> Poly;

/// What the constraint system holds.
pub uninterp spec fn setup_state(meta: Setup) -> SetupState;

/// The advice columns that may be queried through these cells: those of the
/// constraint system that the cells belong to.
pub uninterp spec fn queryable(cells: Cells) -> Set<AdviceColumn>;

/// What the region holds.
pub uninterp spec fn region_state(region: WitnessRegion) -> RegionState;

/// The selectors that the constraint system behind the region has allocated.
pub uninterp spec fn region_selectors(region: WitnessRegion) -> Set<Selector>;

/// The number of rows that the backend behind the region holds from the
/// region's first row on: none where the region begins beyond the backend's
/// last row.
pub uninterp spec fn region_rows(region: WitnessRegion) -> nat;

/// The canonical integers that the table has accepted, by table column and
/// row offset.
pub uninterp spec fn table_cells(table: TableRegion) -> Map<(TableColumn, int), int>;

/// What `Value::map` returns for the conversion of an integer to the field:
/// unknown where the integer is unknown, else the field element of that
/// integer.
pub uninterp spec fn tag_element(tag: Value<usize>) -> Value<Assigned<Fp>>;

/// `ConstraintSystem::advice_column`: allocates an advice column, which no
/// earlier call has returned.  All else stays as it is.
#[verifier::external_body]
pub(crate) fn advice_column(meta: &mut Setup) -> (column: AdviceColumn)
    ensures
        !setup_state(*old(meta)).advice_columns.contains(column),
        setup_state(*final(meta)) == (SetupState {
            advice_columns: setup_state(*old(meta)).advice_columns.insert(column),
            ..setup_state(*old(meta))
        }),
{
    AdviceColumn(meta.0.advice_column())
}

/// `ConstraintSystem::selector`: allocates a simple selector, which no
/// earlier call has returned.  All else stays as it is.
#[verifier::external_body]
pub(crate) fn selector(meta: &mut Setup) -> (selector: Selector)
    ensures
        is_simple(selector),
        !setup_state(*old(meta)).selectors.contains(selector),
        setup_state(*final(meta)) == (SetupState {
            selectors: setup_state(*old(meta)).selectors.push(selector),
            ..setup_state(*old(meta))
        }),
{
    meta.0.selector()
}

/// `ConstraintSystem::complex_selector`: allocates a selector that is not
/// simple, which no earlier call has returned.  All else stays as it is.
#[verifier::external_body]
pub(crate) fn complex_selector(meta: &mut Setup) -> (selector: Selector)
    ensures
        !is_simple(selector),
        !setup_state(*old(meta)).selectors.contains(selector),
        setup_state(*final(meta)) == (SetupState {
            selectors: setup_state(*old(meta)).selectors.push(selector),
            ..setup_state(*old(meta))
        }),
{
    meta.0.complex_selector()
}

/// `ConstraintSystem::lookup_table_column`: allocates a fixed column for a
/// lookup table, which no earlier call has returned.  All else stays as it
/// is.
#[verifier::external_body]
pub(crate) fn lookup_table_column(meta: &mut Setup) -> (column: TableColumn)
    ensures
        !setup_state(*old(meta)).table_columns.contains(column),
        setup_state(*final(meta)) == (SetupState {
            table_columns: setup_state(*old(meta)).table_columns.push(column),
            ..setup_state(*old(meta))
        }),
{
    meta.0.lookup_table_column()
}

/// `ConstraintSystem::create_gate`, handed [`range_check_constraints`]: a
/// gate of the given name is appended, and its constraints are the ones that
/// function returns.  All else stays as it is.  The call panics on a gate
/// without constraints, which that function never returns, and the query in
/// it panics on a column of another constraint system, which `requires`
/// excludes.
#[verifier::external_body]
pub(crate) fn create_range_gate(
    meta: &mut Setup,
    name: &'static str,
    selector: Selector,
    value: AdviceColumn,
    range: usize,
)
    requires
        setup_state(*old(meta)).advice_columns.contains(value),
    ensures
        setup_state(*final(meta)) == (SetupState {
            gates: setup_state(*old(meta)).gates.push(
                GateView {
                    name: name@,
                    constraints: range_constraints(selector, value, range as nat),
                },
            ),
            ..setup_state(*old(meta))
        }),
{
    meta.0.create_gate(
        name,
        |cells| range_check_constraints(&mut Cells(cells), selector, value, range),
    );
}

/// `ConstraintSystem::lookup`, handed [`tagged_lookup_inputs`]: a lookup
/// argument is appended, and its pairs are the ones that function returns.
/// All else stays as it is.  The call panics on an input that holds a simple
/// selector, and so does the subtraction in that function; the queries in it
/// panic on a column of another constraint system.  `requires` excludes all
/// of these.
#[verifier::external_body]
pub(crate) fn add_tagged_lookup(
    meta: &mut Setup,
    selector: Selector,
    value: AdviceColumn,
    num_bits: AdviceColumn,
    table_value: TableColumn,
    table_num_bits: TableColumn,
)
    requires
        !is_simple(selector),
        setup_state(*old(meta)).advice_columns.contains(value),
        setup_state(*old(meta)).advice_columns.contains(num_bits),
    ensures
        setup_state(*final(meta)) == (SetupState {
            lookups: setup_state(*old(meta)).lookups.push(
                tagged_lookup(selector, value, num_bits, table_value, table_num_bits),
            ),
            ..setup_state(*old(meta))
        }),
{
    meta.0.lookup(
        |cells|
            tagged_lookup_inputs(
                &mut Cells(cells),
                selector,
                value,
                num_bits,
                table_value,
                table_num_bits,
            ),
    );
}

/// `VirtualCells::query_selector`: the expression that is the selector
/// itself.
#[verifier::external_body]
pub(crate) fn query_selector(cells: &mut Cells, selector: Selector) -> (expression: Expression<Fp>)
    ensures
        shape(expression) == Poly::Selector(selector),
        queryable(*final(cells)) == queryable(*old(cells)),
{
    cells.0.query_selector(selector)
}

/// `VirtualCells::query_advice` at the current row: the expression that is
/// the cell of `column` in the row under constraint.  The call indexes the
/// constraint system's advice columns by the column's number and panics on a
/// column that the system did not allocate.
#[verifier::external_body]
pub(crate) fn query_advice(cells: &mut Cells, column: AdviceColumn) -> (expression: Expression<Fp>)
    requires
        queryable(*old(cells)).contains(column),
    ensures
        shape(expression) == Poly::cell(column),
        queryable(*final(cells)) == queryable(*old(cells)),
{
    cells.0.query_advice(column.0, Rotation::cur())
}

/// `Expression::Constant` of the field element of `c`.
#[verifier::external_body]
pub(crate) fn constant(c: u64) -> (expression: Expression<Fp>)
    ensures
        shape(expression) == Poly::Constant(c as int),
{
    Expression::Constant(Fp::from(c))
}

/// `Expression::clone`, which the backend derives: the copy holds the same
/// tree.
#[verifier::external_body]
pub(crate) fn duplicate(expression: &Expression<Fp>) -> (copy: Expression<Fp>)
    ensures
        shape(copy) == shape(*expression),
{
    expression.clone()
}

/// `Expression::mul`: the product node of the two trees.  The call panics
/// where both factors hold a simple selector.
#[verifier::external_body]
pub(crate) fn product(left: Expression<Fp>, right: Expression<Fp>) -> (expression: Expression<Fp>)
    requires
        !(shape(left).has_simple_selector() && shape(right).has_simple_selector()),
    ensures
        shape(expression) == Poly::Product(Box::new(shape(left)), Box::new(shape(right))),
{
    left * right
}

/// `Expression::sub`: the sum node of the left tree and the negated right
/// tree.  The call panics where either side holds a simple selector.
#[verifier::external_body]
pub(crate) fn difference(left: Expression<Fp>, right: Expression<Fp>) -> (expression: Expression<
    Fp,
>)
    requires
        !shape(left).has_simple_selector(),
        !shape(right).has_simple_selector(),
    ensures
        shape(expression) == Poly::Sum(
            Box::new(shape(left)),
            Box::new(Poly::Negated(Box::new(shape(right)))),
        ),
{
    left - right
}

/// `Selector::enable`: where the region accepts the request, the selector is
/// enabled at `offset`, and all else stays as it is.  What holds after a
/// refusal is the region's affair.
///
/// The region adds the offset to its first row and hands the request to its
/// backend.  Backends index their selectors by the selector's number and
/// then by that row.  None tests the number, and the backend that measures a
/// circuit's cost does not test the row either, so the call panics on a
/// selector that the backend's constraint system did not allocate and, with
/// that backend, on a row that it does not hold.  `requires` leaves out both,
/// and every offset but zero, for which the sum cannot overflow.
#[verifier::external_body]
pub(crate) fn enable_selector(
    region: &mut WitnessRegion,
    selector: Selector,
    offset: usize,
) -> (outcome: Result<(), Error>)
    requires
        region_selectors(*old(region)).contains(selector),
        offset == 0,
        offset < region_rows(*old(region)),
    ensures
        region_selectors(*final(region)) == region_selectors(*old(region)),
        region_rows(*final(region)) == region_rows(*old(region)),
        outcome is Ok ==> region_state(*final(region)) == (RegionState {
            enabled: region_state(*old(region)).enabled.insert((selector, offset as int)),
            ..region_state(*old(region))
        }),
{
    selector.enable(&mut region.0, offset)
}

/// `Region::assign_advice`: where the region accepts the request, the cell of
/// `column` at `offset` holds `value`, and all else stays as it is.  What
/// holds after a refusal is the region's affair.  The region adds the offset
/// to its first row, which cannot overflow for the offset zero; `requires`
/// admits no other.  The backends test the column and the row before they
/// write, or keep nothing; the one that draws a layout counts rows as the
/// row plus one, which a row that a backend holds cannot overflow, so
/// `requires` asks for such a row here too.
#[verifier::external_body]
pub(crate) fn assign_advice(
    region: &mut WitnessRegion,
    annotation: &'static str,
    column: AdviceColumn,
    offset: usize,
    value: Value<Assigned<Fp>>,
) -> (outcome: Result<(), Error>)
    requires
        offset == 0,
        offset < region_rows(*old(region)),
    ensures
        region_selectors(*final(region)) == region_selectors(*old(region)),
        region_rows(*final(region)) == region_rows(*old(region)),
        outcome is Ok ==> region_state(*final(region)) == (RegionState {
            witnessed: region_state(*old(region)).witnessed.insert(
                (column, offset as int),
                value,
            ),
            ..region_state(*old(region))
        }),
{
    match region.0.assign_advice(|| annotation, column.0, offset, || value) {
        Ok(_) => Ok(()),
        Err(error) => Err(error),
    }
}

/// `Value::map` with the conversion of an integer to the field.
#[verifier::external_body]
pub(crate) fn tag_value(tag: Value<usize>) -> (value: Value<Assigned<Fp>>)
    ensures
        value == tag_element(tag),
{
    tag.map(|bits| Assigned::from(Fp::from(bits as u64)))
}

/// `Table::assign_cell` of the field element of `value`: where the table
/// accepts the request, the cell of `column` at `offset` holds `value`.  The
/// backend's table refuses a second value at the offset zero of a column,
/// and any column that an earlier table has used; what holds after a refusal
/// is the table's affair.  It counts the rows of a column as the offset plus
/// one, which overflows at the greatest offset; `requires` excludes that one.
/// The memory that this count takes is no part of the contract.
#[verifier::external_body]
pub(crate) fn assign_cell(
    table: &mut TableRegion,
    annotation: &'static str,
    column: TableColumn,
    offset: usize,
    value: u64,
) -> (outcome: Result<(), Error>)
    requires
        offset < usize::MAX,
    ensures
        outcome is Ok ==> table_cells(*final(table)) == table_cells(*old(table)).insert(
            (column, offset as int),
            value as int,
        ),
{
    let element = Value::known(Fp::from(value));
    table.0.assign_cell(|| annotation, column, offset, || element)
}

} // verus!
