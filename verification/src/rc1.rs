//! The range check by a polynomial gate alone.
//!
//! The polynomial gate constrains one advice cell per row: where its selector
//! is enabled, the product of `i - value` over `i` in `0..RANGE` must vanish,
//! which it does exactly where the cell holds one of those integers.  Its
//! degree grows with `RANGE`, so this check suits small bounds.

use crate::backend::{
    advice_column, assign_advice, create_range_gate, enable_selector, is_simple, region_rows,
    region_selectors, region_state, selector, setup_state, AdviceColumn, GateView, RegionState,
    Setup, SetupState, WitnessRegion,
};
use crate::error::AssignError;
use crate::gate::range_constraints;
use halo2_proofs::circuit::Value;
use halo2_proofs::pasta::Fp;
use halo2_proofs::plonk::{Assigned, Selector};
use vstd::prelude::*;

verus! {

/// What a configuration appends to the constraint system: a gate named
/// "Range check" that holds the one constraint of the range check.
pub open spec fn range_check_gate(selector: Selector, value: AdviceColumn, range: nat) -> GateView {
    GateView { name: "Range check"@, constraints: range_constraints(selector, value, range) }
}

/// Enables `selector` on the first row of a region in which no selector is
/// enabled yet, and assigns `value` to the cell of `column` in that row.  The
/// backend must hold that row.
pub(crate) fn assign_checked_value(
    region: &mut WitnessRegion,
    selector: Selector,
    column: AdviceColumn,
    value: Value<Assigned<Fp>>,
) -> (outcome: Result<(), AssignError>)
    requires
        region_selectors(*old(region)).contains(selector),
        region_rows(*old(region)) > 0,
        region_state(*old(region)).enabled.is_empty(),
    ensures
        region_selectors(*final(region)) == region_selectors(*old(region)),
        region_rows(*final(region)) == region_rows(*old(region)),
        outcome is Ok ==> region_state(*final(region)) == (RegionState {
            enabled: set![(selector, 0int)],
            witnessed: region_state(*old(region)).witnessed.insert((column, 0), value),
        }),
        outcome matches Err(error) ==> error is Selector || error is Witness,
{
    let offset: usize = 0;
    match AssignError::selector(enable_selector(region, selector, offset)) {
        Ok(()) => {},
        Err(error) => {
            return Err(error);
        },
    }
    let outcome = AssignError::witness(
        assign_advice(region, "assign value", column, offset, value),
    );
    assert(region_state(*old(region)).enabled.insert((selector, 0int)) =~= set![(selector, 0int)]);
    outcome
}

/// The configuration of a range check for `[0, RANGE)` by a gate.
#[derive(Clone, Copy, Debug)]
pub struct RangeCheckConfig<const RANGE: usize> {
    /// The column of the checked values.
    pub value: AdviceColumn,
    /// The selector of the polynomial gate.
    pub q_range_check: Selector,
}

impl<const RANGE: usize> RangeCheckConfig<RANGE> {
    /// Allocates the selector and registers the polynomial gate on `value`.
    ///
    /// `value` must be an advice column of `meta`; [`Self::allocate`] makes
    /// one.
    pub fn configure(meta: &mut Setup, value: AdviceColumn) -> (config: Self)
        requires
            setup_state(*old(meta)).advice_columns.contains(value),
        ensures
            config.value == value,
            is_simple(config.q_range_check),
            !setup_state(*old(meta)).selectors.contains(config.q_range_check),
            setup_state(*final(meta)) == (SetupState {
                selectors: setup_state(*old(meta)).selectors.push(config.q_range_check),
                gates: setup_state(*old(meta)).gates.push(
                    range_check_gate(config.q_range_check, value, RANGE as nat),
                ),
                ..setup_state(*old(meta))
            }),
    {
        let q_range_check = selector(meta);
        create_range_gate(meta, "Range check", q_range_check, value, RANGE);
        Self { value, q_range_check }
    }

    /// Allocates a new advice column for the checked values and configures
    /// the range check on it.
    pub fn allocate(meta: &mut Setup) -> (config: Self)
        ensures
            is_simple(config.q_range_check),
            !setup_state(*old(meta)).advice_columns.contains(config.value),
            !setup_state(*old(meta)).selectors.contains(config.q_range_check),
            setup_state(*final(meta)) == (SetupState {
                advice_columns: setup_state(*old(meta)).advice_columns.insert(config.value),
                selectors: setup_state(*old(meta)).selectors.push(config.q_range_check),
                gates: setup_state(*old(meta)).gates.push(
                    range_check_gate(config.q_range_check, config.value, RANGE as nat),
                ),
                ..setup_state(*old(meta))
            }),
    {
        let value = advice_column(meta);
        Self::configure(meta, value)
    }

    /// Checks one value: enables the selector on the first row of `region`
    /// and assigns `value` to the checked cell of that row.
    ///
    /// The region must be one of the circuit that was configured, and a new
    /// one: no selector is enabled in it yet, so that the check has a row of
    /// its own.  The backend must hold the region's first row.  Succeeds where
    /// the backend accepts both requests, and stops at the first that it
    /// refuses.
    pub fn assign(&self, region: &mut WitnessRegion, value: Value<Assigned<Fp>>) -> (outcome:
        Result<(), AssignError>)
        requires
            region_selectors(*old(region)).contains(self.q_range_check),
            region_rows(*old(region)) > 0,
            region_state(*old(region)).enabled.is_empty(),
        ensures
            region_selectors(*final(region)) == region_selectors(*old(region)),
            region_rows(*final(region)) == region_rows(*old(region)),
            outcome is Ok ==> region_state(*final(region)) == (RegionState {
                enabled: set![(self.q_range_check, 0int)],
                witnessed: region_state(*old(region)).witnessed.insert((self.value, 0), value),
            }),
            outcome matches Err(error) ==> error is Selector || error is Witness,
    {
        assign_checked_value(region, self.q_range_check, self.value, value)
    }
}

} // verus!
