//! The expressions that the gadget hands to the constraint system.

use crate::backend::{
    constant, difference, duplicate, is_simple, product, query_advice, query_selector, queryable,
    shape, AdviceColumn, Cells,
};
use crate::polynomial::{
    bound_product, lemma_bound_product_selector_free, lemma_lookup_parts_selector_free,
    lookup_spare, lookup_switched, lookup_tag_input, lookup_value_input, range_gate, Poly,
};
use halo2_proofs::pasta::Fp;
use halo2_proofs::plonk::{Expression, Selector, TableColumn};
use vstd::prelude::*;

verus! {

/// Builds the product of `i - value` over the integers `i` in `0..range`.
///
/// The product vanishes exactly where `value` is one of those integers, and
/// its degree is `range` times the degree of `value`.
pub fn bound_expression(value: &Expression<Fp>, range: usize) -> (expression: Expression<Fp>)
    requires
        !shape(*value).has_simple_selector(),
    ensures
        shape(expression) == bound_product(shape(*value), range as nat),
{
    let mut expression = constant(1);
    let mut i: usize = 0;
    while i < range
        invariant
            i <= range,
            !shape(*value).has_simple_selector(),
            shape(expression) == bound_product(shape(*value), i as nat),
        decreases range - i,
    {
        proof {
            lemma_bound_product_selector_free(shape(*value), i as nat);
        }
        let factor = difference(constant(i as u64), duplicate(value));
        expression = product(expression, factor);
        i += 1;
    }
    expression
}

/// The constraints of the range-check gate, each with its name: one, named
/// "range check", that is the selector times the bound product of the value
/// cell.
pub open spec fn range_constraints(selector: Selector, value: AdviceColumn, range: nat) -> Seq<
    (Seq<char>, Poly),
> {
    seq![("range check"@, range_gate(selector, value, range))]
}

/// Builds the constraints of the range-check gate on the cell of `value`.
pub fn range_check_constraints(
    cells: &mut Cells,
    selector: Selector,
    value: AdviceColumn,
    range: usize,
) -> (constraints: Vec<(&'static str, Expression<Fp>)>)
    requires
        queryable(*old(cells)).contains(value),
    ensures
        constraints@.len() == 1,
        (constraints@[0].0@, shape(constraints@[0].1)) == range_constraints(
            selector,
            value,
            range as nat,
        )[0],
        queryable(*final(cells)) == queryable(*old(cells)),
{
    let q_range_check = query_selector(cells, selector);
    let cell = query_advice(cells, value);
    let bound = bound_expression(&cell, range);
    proof {
        assert(!Poly::cell(value).has_simple_selector());
        lemma_bound_product_selector_free(Poly::cell(value), range as nat);
    }
    let mut constraints = Vec::new();
    constraints.push(("range check", product(q_range_check, bound)));
    constraints
}

/// The inputs of the tagged lookup: the value against the table's value
/// column and the bit length against the table's tag column, so that both
/// are looked up in one row of the table.
///
/// Where the selector is enabled the inputs are the two cells.  Elsewhere
/// they are the value zero and the tag one, which is the table's first row,
/// so the lookup constrains no other row.
pub fn tagged_lookup_inputs(
    cells: &mut Cells,
    selector: Selector,
    value: AdviceColumn,
    num_bits: AdviceColumn,
    table_value: TableColumn,
    table_num_bits: TableColumn,
) -> (inputs: Vec<(Expression<Fp>, TableColumn)>)
    requires
        !is_simple(selector),
        queryable(*old(cells)).contains(value),
        queryable(*old(cells)).contains(num_bits),
    ensures
        inputs@.len() == 2,
        shape(inputs@[0].0) == lookup_value_input(selector, value),
        inputs@[0].1 == table_value,
        shape(inputs@[1].0) == lookup_tag_input(selector, num_bits),
        inputs@[1].1 == table_num_bits,
        queryable(*final(cells)) == queryable(*old(cells)),
{
    proof {
        lemma_lookup_parts_selector_free(selector, num_bits);
    }
    let q_lookup = query_selector(cells, selector);
    let tag_cell = query_advice(cells, num_bits);
    let value_cell = query_advice(cells, value);
    let value_input = product(duplicate(&q_lookup), value_cell);
    let spare = difference(constant(1), tag_cell);
    assert(shape(spare) == lookup_spare(num_bits));
    let switched = product(q_lookup, spare);
    assert(shape(switched) == lookup_switched(selector, num_bits));
    let tag_input = difference(constant(1), switched);
    let mut inputs = Vec::new();
    inputs.push((value_input, table_value));
    inputs.push((tag_input, table_num_bits));
    inputs
}

} // verus!
