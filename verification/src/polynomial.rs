//! The polynomials that the gadget registers, and what they mean.
//!
//! A [`Poly`] is the tree of an expression over the cells around one row.
//! Its value is taken in the field of order `p`.  The laws of this module say
//! when the range-check gate vanishes and what the tagged lookup presents.

use crate::backend::{is_simple, AdviceColumn};
use crate::field::{
    is_canonical, is_prime, lemma_difference_vanishes, lemma_factor_vanishes,
    lemma_prime_divides_factor,
};
use halo2_proofs::plonk::{Selector, TableColumn};
use vstd::arithmetic::div_mod::*;
use vstd::prelude::*;

verus! {

/// The tree of a polynomial expression.  A query names its column and the
/// distance of the queried row from the row under constraint.
pub enum Poly {
    /// The field element of an integer.
    Constant(int),
    /// A selector: one on the rows where it is enabled, zero elsewhere.
    Selector(Selector),
    /// A cell of the fixed column with the given number.
    Fixed { number: int, rotation: int },
    /// A cell of an advice column.
    Advice { column: AdviceColumn, rotation: int },
    /// A cell of the instance column with the given number.
    Instance { number: int, rotation: int },
    /// The negation of a polynomial.
    Negated(Box<Poly>),
    /// The sum of two polynomials.
    Sum(Box<Poly>, Box<Poly>),
    /// The product of two polynomials.
    Product(Box<Poly>, Box<Poly>),
    /// A polynomial times the field element of an integer.
    Scaled(Box<Poly>, int),
}

/// What the cells around one row hold: the selectors enabled on the row, and
/// the canonical integer in each cell that a query can reach from it, by
/// column (a fixed or an instance column by its number) and distance.
pub struct RowValues {
    pub enabled: Set<Selector>,
    pub fixed: Map<(int, int), int>,
    pub advice: Map<(AdviceColumn, int), int>,
    pub instance: Map<(int, int), int>,
}

impl RowValues {
    /// What the cell of an advice column holds in the row itself.
    pub open spec fn at(self, column: AdviceColumn) -> int {
        self.advice[(column, 0)]
    }
}

impl Poly {
    /// The cell of an advice column in the row under constraint.
    pub open spec fn cell(column: AdviceColumn) -> Poly {
        Poly::Advice { column, rotation: 0 }
    }

    /// Whether a simple selector occurs in the tree.
    pub open spec fn has_simple_selector(self) -> bool
        decreases self,
    {
        match self {
            Poly::Constant(_) => false,
            Poly::Selector(selector) => is_simple(selector),
            Poly::Fixed { .. } => false,
            Poly::Advice { .. } => false,
            Poly::Instance { .. } => false,
            Poly::Negated(inner) => inner.has_simple_selector(),
            Poly::Sum(left, right) => left.has_simple_selector() || right.has_simple_selector(),
            Poly::Product(left, right) => left.has_simple_selector()
                || right.has_simple_selector(),
            Poly::Scaled(inner, _) => inner.has_simple_selector(),
        }
    }

    /// The canonical integer of the polynomial's value around a row, in the
    /// field of order `p`.
    pub open spec fn eval(self, row: RowValues, p: int) -> int
        decreases self,
    {
        match self {
            Poly::Constant(c) => c % p,
            Poly::Selector(selector) => if row.enabled.contains(selector) {
                1int % p
            } else {
                0
            },
            Poly::Fixed { number, rotation } => row.fixed[(number, rotation)] % p,
            Poly::Advice { column, rotation } => row.advice[(column, rotation)] % p,
            Poly::Instance { number, rotation } => row.instance[(number, rotation)] % p,
            Poly::Negated(inner) => (-inner.eval(row, p)) % p,
            Poly::Sum(left, right) => (left.eval(row, p) + right.eval(row, p)) % p,
            Poly::Product(left, right) => (left.eval(row, p) * right.eval(row, p)) % p,
            Poly::Scaled(inner, factor) => (inner.eval(row, p) * factor) % p,
        }
    }
}

/// The product of `i - v` over the integers `i` in `0..n`.
pub open spec fn bound_value(n: nat, v: int) -> int
    decreases n,
{
    if n == 0 {
        1
    } else {
        bound_value((n - 1) as nat, v) * ((n - 1) - v)
    }
}

/// The tree of the product of `i - x` over `i` in `0..n`: the constant one
/// multiplied, for each `i` in increasing order, by `i - x`.
pub open spec fn bound_product(x: Poly, n: nat) -> Poly
    decreases n,
{
    if n == 0 {
        Poly::Constant(1)
    } else {
        Poly::Product(
            Box::new(bound_product(x, (n - 1) as nat)),
            Box::new(
                Poly::Sum(Box::new(Poly::Constant(n - 1)), Box::new(Poly::Negated(Box::new(x)))),
            ),
        )
    }
}

/// The polynomial of the range-check gate: the selector times the product of
/// `i - value` over `i` in `0..range`.
pub open spec fn range_gate(selector: Selector, value: AdviceColumn, range: nat) -> Poly {
    Poly::Product(
        Box::new(Poly::Selector(selector)),
        Box::new(bound_product(Poly::cell(value), range)),
    )
}

/// Whether the range-check gate holds on a row, in the field of order `p`.
pub open spec fn gate_holds(
    selector: Selector,
    value: AdviceColumn,
    range: nat,
    row: RowValues,
    p: int,
) -> bool {
    range_gate(selector, value, range).eval(row, p) == 0
}

/// What the tagged lookup presents for the value: the value cell where the
/// selector is enabled, zero elsewhere.
pub open spec fn lookup_value_input(selector: Selector, value: AdviceColumn) -> Poly {
    Poly::Product(Box::new(Poly::Selector(selector)), Box::new(Poly::cell(value)))
}

/// What the bit-length cell lacks to one: `1 - num_bits`.
pub open spec fn lookup_spare(num_bits: AdviceColumn) -> Poly {
    Poly::Sum(
        Box::new(Poly::Constant(1)),
        Box::new(Poly::Negated(Box::new(Poly::cell(num_bits)))),
    )
}

/// That difference where the selector is enabled, zero elsewhere:
/// `selector * (1 - num_bits)`.
pub open spec fn lookup_switched(selector: Selector, num_bits: AdviceColumn) -> Poly {
    Poly::Product(Box::new(Poly::Selector(selector)), Box::new(lookup_spare(num_bits)))
}

/// What the tagged lookup presents for the tag: the bit-length cell where the
/// selector is enabled, one elsewhere.  It is `1 - selector * (1 - num_bits)`.
pub open spec fn lookup_tag_input(selector: Selector, num_bits: AdviceColumn) -> Poly {
    Poly::Sum(
        Box::new(Poly::Constant(1)),
        Box::new(Poly::Negated(Box::new(lookup_switched(selector, num_bits)))),
    )
}

/// The pairs of the tagged lookup: the value input against the table's value
/// column, and the tag input against the table's tag column.
pub open spec fn tagged_lookup(
    selector: Selector,
    value: AdviceColumn,
    num_bits: AdviceColumn,
    table_value: TableColumn,
    table_num_bits: TableColumn,
) -> Seq<(Poly, TableColumn)> {
    seq![
        (lookup_value_input(selector, value), table_value),
        (lookup_tag_input(selector, num_bits), table_num_bits),
    ]
}

/// A bound product is free of simple selectors where its argument is.
pub proof fn lemma_bound_product_selector_free(x: Poly, n: nat)
    requires
        !x.has_simple_selector(),
    ensures
        !bound_product(x, n).has_simple_selector(),
    decreases n,
{
    if n > 0 {
        lemma_bound_product_selector_free(x, (n - 1) as nat);
        let index = Poly::Constant(n - 1);
        let negated = Poly::Negated(Box::new(x));
        assert(!index.has_simple_selector());
        assert(!negated.has_simple_selector());
        assert(!Poly::Sum(Box::new(index), Box::new(negated)).has_simple_selector());
    }
}

/// The parts of the tag input are free of simple selectors where the
/// lookup's selector is not a simple one.
pub proof fn lemma_lookup_parts_selector_free(selector: Selector, num_bits: AdviceColumn)
    requires
        !is_simple(selector),
    ensures
        !Poly::Constant(1).has_simple_selector(),
        !Poly::cell(num_bits).has_simple_selector(),
        !Poly::Selector(selector).has_simple_selector(),
        !lookup_spare(num_bits).has_simple_selector(),
        !lookup_switched(selector, num_bits).has_simple_selector(),
{
    let one = Poly::Constant(1);
    let cell = Poly::cell(num_bits);
    let negated = Poly::Negated(Box::new(cell));
    let switch = Poly::Selector(selector);
    assert(!one.has_simple_selector());
    assert(!cell.has_simple_selector());
    assert(!negated.has_simple_selector());
    assert(!switch.has_simple_selector());
    assert(!Poly::Sum(Box::new(one), Box::new(negated)).has_simple_selector());
    assert(!Poly::Product(
        Box::new(switch),
        Box::new(lookup_spare(num_bits)),
    ).has_simple_selector());
}

/// The value of a bound product is the product of `i - v` reduced modulo
/// `p`, where `v` is the value of its argument.
pub proof fn lemma_bound_product_eval(x: Poly, n: nat, row: RowValues, p: int)
    requires
        p > 0,
    ensures
        bound_product(x, n).eval(row, p) == bound_value(n, x.eval(row, p)) % p,
    decreases n,
{
    let v = x.eval(row, p);
    if n > 0 {
        let m = (n - 1) as nat;
        lemma_bound_product_eval(x, m, row, p);
        let index = Poly::Constant(m as int);
        let negated = Poly::Negated(Box::new(x));
        let factor = Poly::Sum(Box::new(index), Box::new(negated));
        assert(index.eval(row, p) == (m as int) % p);
        assert(negated.eval(row, p) == (-v) % p);
        assert(factor.eval(row, p) == (m - v) % p) by {
            lemma_add_mod_noop(m as int, -v, p);
        }
        lemma_mul_mod_noop(bound_value(m, v), m - v, p);
    }
}

/// The product of `i - v` over `0..n` vanishes modulo a prime `p` exactly
/// where `v` is one of the integers `0..n`, for `n` up to `p` and `v` a
/// canonical representative.
pub proof fn lemma_bound_value_vanishes(n: nat, v: int, p: int)
    requires
        is_prime(p),
        n <= p,
        is_canonical(v, p),
    ensures
        bound_value(n, v) % p == 0 <==> v < n,
    decreases n,
{
    if n == 0 {
        lemma_small_mod(1, p as nat);
    } else {
        let m = (n - 1) as nat;
        let rest = bound_value(m, v);
        lemma_bound_value_vanishes(m, v, p);
        lemma_difference_vanishes(p, m as int, v);
        if v < n {
            lemma_factor_vanishes(p, rest, m - v);
        } else {
            if (rest * (m - v)) % p == 0 {
                lemma_prime_divides_factor(p, rest, m - v);
            }
        }
    }
}

/// Completeness and soundness of the range-check gate, in a prime field with
/// at least `range` elements.  On a row where the selector is enabled and the
/// value cell holds the canonical integer `v`, the constraint holds exactly
/// where `v < range`: every `v` of `0..range` satisfies it, and every `v` from
/// `range` up to the field's order violates it.  On a row where the selector
/// is not enabled the constraint holds whatever the cell holds.
pub proof fn lemma_gate_holds_iff_in_range(
    selector: Selector,
    value: AdviceColumn,
    range: nat,
    row: RowValues,
    p: int,
)
    requires
        is_prime(p),
        range <= p,
        is_canonical(row.at(value), p),
    ensures
        row.enabled.contains(selector) ==> (gate_holds(selector, value, range, row, p)
            <==> row.at(value) < range),
        !row.enabled.contains(selector) ==> gate_holds(selector, value, range, row, p),
{
    let v = row.at(value);
    let x = Poly::cell(value);
    lemma_small_mod(v as nat, p as nat);
    assert(x.eval(row, p) == v);
    lemma_bound_product_eval(x, range, row, p);
    lemma_bound_value_vanishes(range, v, p);
    let body = bound_product(x, range).eval(row, p);
    let switch = Poly::Selector(selector).eval(row, p);
    assert(range_gate(selector, value, range).eval(row, p) == (switch * body) % p);
    lemma_mod_twice(bound_value(range, v), p);
    if row.enabled.contains(selector) {
        lemma_small_mod(1, p as nat);
        assert(switch * body == body) by (nonlinear_arith)
            requires
                switch == 1,
        ;
    } else {
        assert(switch * body == 0) by (nonlinear_arith)
            requires
                switch == 0,
        ;
        lemma_small_mod(0, p as nat);
    }
}

/// What the tagged lookup presents on a row.  Where the selector is enabled
/// it presents the two cells as they are; elsewhere it presents the tag one
/// and the value zero, whatever the cells hold.
pub proof fn lemma_lookup_inputs(
    selector: Selector,
    value: AdviceColumn,
    num_bits: AdviceColumn,
    row: RowValues,
    p: int,
)
    requires
        p >= 2,
        is_canonical(row.at(value), p),
        is_canonical(row.at(num_bits), p),
    ensures
        row.enabled.contains(selector) ==> {
            &&& lookup_value_input(selector, value).eval(row, p) == row.at(value)
            &&& lookup_tag_input(selector, num_bits).eval(row, p) == row.at(num_bits)
        },
        !row.enabled.contains(selector) ==> {
            &&& lookup_value_input(selector, value).eval(row, p) == 0
            &&& lookup_tag_input(selector, num_bits).eval(row, p) == 1
        },
{
    let v = row.at(value);
    let t = row.at(num_bits);
    let switch = Poly::Selector(selector).eval(row, p);
    lemma_small_mod(v as nat, p as nat);
    lemma_small_mod(t as nat, p as nat);
    lemma_small_mod(1, p as nat);
    lemma_small_mod(0, p as nat);
    assert(Poly::cell(value).eval(row, p) == v);
    assert(Poly::cell(num_bits).eval(row, p) == t);
    let one = Poly::Constant(1);
    assert(one.eval(row, p) == 1);
    assert(lookup_value_input(selector, value).eval(row, p) == (switch * v) % p);
    let negated_tag = Poly::Negated(Box::new(Poly::cell(num_bits)));
    let spare = Poly::Sum(Box::new(one), Box::new(negated_tag));
    let switched = Poly::Product(Box::new(Poly::Selector(selector)), Box::new(spare));
    let negated_switched = Poly::Negated(Box::new(switched));
    assert(negated_tag.eval(row, p) == (-t) % p);
    assert(spare.eval(row, p) == (1 - t) % p) by {
        lemma_add_mod_noop(1, -t, p);
    }
    assert(switched.eval(row, p) == (switch * (1 - t)) % p) by {
        lemma_mul_mod_noop_right(switch, 1 - t, p);
    }
    assert(negated_switched.eval(row, p) == (-((switch * (1 - t)) % p)) % p);
    assert(lookup_tag_input(selector, num_bits).eval(row, p) == (1 - switch * (1 - t)) % p) by {
        lemma_add_mod_noop(1, -((switch * (1 - t)) % p), p);
        lemma_sub_mod_noop_right(1, switch * (1 - t), p);
        lemma_add_mod_noop(1, -(switch * (1 - t)), p);
    }
    if row.enabled.contains(selector) {
        assert(switch * v == v) by (nonlinear_arith)
            requires
                switch == 1,
        ;
        assert(1 - switch * (1 - t) == t) by (nonlinear_arith)
            requires
                switch == 1,
        ;
    } else {
        assert(switch * v == 0) by (nonlinear_arith)
            requires
                switch == 0,
        ;
        assert(1 - switch * (1 - t) == 1) by (nonlinear_arith)
            requires
                switch == 0,
        ;
    }
}

} // verus!
