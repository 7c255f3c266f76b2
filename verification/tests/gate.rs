//! The expressions that the gadget builds, evaluated by the backend.

use halo2_proofs::pasta::Fp;
use halo2_proofs::plonk::{ConstraintSystem, Expression, TableColumn};
use halo2_proofs::poly::Rotation;
use range_check::backend::{AdviceColumn, Cells, Setup};
use range_check::gate::{bound_expression, range_check_constraints, tagged_lookup_inputs};
use range_check::rc3::table::{tag, RangeCheckTable};

/// The value of an expression on a row with the given selector value and
/// advice cells, as the backend computes it.
fn eval(expression: &Expression<Fp>, selector: Fp, advice: &[Fp]) -> Fp {
    expression.evaluate(
        &|constant| constant,
        &|_| selector,
        &|_, _, _| unreachable!("no fixed cell is queried"),
        &|_, column, rotation| {
            assert_eq!(rotation, Rotation::cur());
            advice[column]
        },
        &|_, _, _| unreachable!("no instance cell is queried"),
        &|inner| -inner,
        &|left, right| left + right,
        &|left, right| left * right,
        &|inner, factor| inner * factor,
    )
}

fn first_advice_cell() -> Expression<Fp> {
    Expression::Advice { query_index: 0, column_index: 0, rotation: Rotation::cur() }
}

#[test]
fn bound_expression_is_the_product_of_the_differences() {
    let bound = bound_expression(&first_advice_cell(), 3);
    // (0 - 5)(1 - 5)(2 - 5) = -60
    assert_eq!(eval(&bound, Fp::one(), &[Fp::from(5)]), -Fp::from(60));
    // (0 - 3)(1 - 3)(2 - 3) = -6
    assert_eq!(eval(&bound, Fp::one(), &[Fp::from(3)]), -Fp::from(6));
    let bound = bound_expression(&first_advice_cell(), 4);
    // (0 - 6)(1 - 6)(2 - 6)(3 - 6) = 360
    assert_eq!(eval(&bound, Fp::one(), &[Fp::from(6)]), Fp::from(360));
}

#[test]
fn bound_expression_vanishes_below_the_bound_only() {
    let bound = bound_expression(&first_advice_cell(), 8);
    for v in 0..8 {
        assert_eq!(eval(&bound, Fp::one(), &[Fp::from(v)]), Fp::zero());
    }
    for v in 8..40 {
        assert_ne!(eval(&bound, Fp::one(), &[Fp::from(v)]), Fp::zero());
    }
    assert_ne!(eval(&bound, Fp::one(), &[-Fp::one()]), Fp::zero());
}

#[test]
fn bound_expression_has_the_degree_of_its_bound() {
    assert_eq!(bound_expression(&first_advice_cell(), 0).degree(), 0);
    assert_eq!(bound_expression(&first_advice_cell(), 1).degree(), 1);
    assert_eq!(bound_expression(&first_advice_cell(), 8).degree(), 8);
}

#[test]
fn bound_expression_over_no_integer_is_one() {
    let bound = bound_expression(&first_advice_cell(), 0);
    assert_eq!(eval(&bound, Fp::one(), &[Fp::zero()]), Fp::one());
    assert_eq!(eval(&bound, Fp::one(), &[Fp::from(7)]), Fp::one());
}

#[test]
fn bound_expression_takes_any_argument() {
    // The argument need not be a cell: here it is the constant 2.
    let two = Expression::Constant(Fp::from(2));
    assert_eq!(eval(&bound_expression(&two, 3), Fp::one(), &[]), Fp::zero());
    // (0 - 2)(1 - 2) = 2
    assert_eq!(eval(&bound_expression(&two, 2), Fp::one(), &[]), Fp::from(2));
}

/// The constraints of the range-check gate on the second of two advice
/// columns.
fn constraints(range: usize) -> Vec<(&'static str, Expression<Fp>)> {
    let mut cs = ConstraintSystem::<Fp>::default();
    let _first = cs.advice_column();
    let value = AdviceColumn(cs.advice_column());
    let selector = cs.selector();
    let mut seen = Vec::new();
    cs.create_gate("probe", |cells| {
        let constraints = range_check_constraints(&mut Cells(cells), selector, value, range);
        seen = constraints.clone();
        constraints
    });
    seen
}

#[test]
fn range_check_constraints_are_one_named_polynomial() {
    let constraints = constraints(8);
    assert_eq!(constraints.len(), 1);
    assert_eq!(constraints[0].0, "range check");
    assert_eq!(constraints[0].1.degree(), 9);
}

#[test]
fn range_check_constraint_is_the_selector_times_the_bound_product() {
    let constraints = constraints(3);
    let other = Fp::from(1000);
    // Enabled: (0 - 5)(1 - 5)(2 - 5) = -60, read from the second column.
    assert_eq!(eval(&constraints[0].1, Fp::one(), &[other, Fp::from(5)]), -Fp::from(60));
    assert_eq!(eval(&constraints[0].1, Fp::one(), &[other, Fp::from(2)]), Fp::zero());
    // Not enabled: zero, whatever the cell holds.
    assert_eq!(eval(&constraints[0].1, Fp::zero(), &[other, Fp::from(5)]), Fp::zero());
}

/// The inputs of the tagged lookup, with the value in the first advice
/// column and the bit length in the second, and the table's two columns.
fn lookup() -> (Vec<(Expression<Fp>, TableColumn)>, RangeCheckTable<8, 256>) {
    let mut cs = ConstraintSystem::<Fp>::default();
    let value = AdviceColumn(cs.advice_column());
    let num_bits = AdviceColumn(cs.advice_column());
    let selector = cs.complex_selector();
    let table = RangeCheckTable::<8, 256>::configure(&mut Setup(&mut cs));
    let mut seen = Vec::new();
    cs.lookup(|cells| {
        let inputs = tagged_lookup_inputs(
            &mut Cells(cells),
            selector,
            value,
            num_bits,
            table.value,
            table.num_bits,
        );
        seen = inputs.clone();
        inputs
    });
    (seen, table)
}

#[test]
fn lookup_inputs_pair_value_and_tag_with_their_table_columns() {
    let (inputs, table) = lookup();
    assert_eq!(inputs.len(), 2);
    assert_eq!(inputs[0].1, table.value);
    assert_eq!(inputs[1].1, table.num_bits);
    assert_ne!(table.value, table.num_bits);
}

#[test]
fn lookup_inputs_are_the_cells_where_the_selector_is_enabled() {
    let (inputs, _) = lookup();
    let cells = [Fp::from(200), Fp::from(7)];
    assert_eq!(eval(&inputs[0].0, Fp::one(), &cells), Fp::from(200));
    assert_eq!(eval(&inputs[1].0, Fp::one(), &cells), Fp::from(7));
    let cells = [Fp::zero(), Fp::zero()];
    assert_eq!(eval(&inputs[0].0, Fp::one(), &cells), Fp::zero());
    assert_eq!(eval(&inputs[1].0, Fp::one(), &cells), Fp::zero());
}

#[test]
fn lookup_inputs_are_the_first_row_where_the_selector_is_not_enabled() {
    let (inputs, _) = lookup();
    let cells = [Fp::from(200), Fp::from(7)];
    assert_eq!(eval(&inputs[0].0, Fp::zero(), &cells), Fp::zero());
    assert_eq!(eval(&inputs[1].0, Fp::zero(), &cells), Fp::one());
    assert_eq!(tag(0), 1);
}
