//! The range check that chooses between the polynomial gate and the tagged
//! lookup.
//!
//! A value whose required range is below `RANGE` is checked by the
//! polynomial gate of [`crate::rc1`].  A value with a wider range, up to
//! `LOOKUP_RANGE`, is checked by a lookup: the value and the bit length that
//! the prover claims for it must together be a row of the [`table`].  A check
//! takes a region in which no selector is enabled yet, writes to its first
//! row and enables one selector there, so no row has both selectors enabled.

pub mod table;

use crate::backend::{
    add_tagged_lookup, advice_column, assign_advice, complex_selector, create_range_gate,
    enable_selector, is_simple, region_rows, region_selectors, region_state, selector,
    setup_state, tag_element, tag_value, AdviceColumn, RegionState, Setup, SetupState,
    WitnessRegion,
};
use crate::error::AssignError;
use crate::field::is_canonical;
use crate::polynomial::{
    lemma_lookup_inputs, lookup_tag_input, lookup_value_input, tagged_lookup, RowValues,
};
use crate::rc1::{assign_checked_value, range_check_gate};
use crate::rc3::table::{
    lemma_absent_before_push, lemma_lookup_complete, lemma_lookup_sound, lookup_holds, tag_of,
    RangeCheckTable,
};
use halo2_proofs::circuit::Value;
use halo2_proofs::pasta::Fp;
use halo2_proofs::plonk::{Assigned, Selector};
use vstd::prelude::*;

verus! {

/// How a value is checked.
#[derive(Clone, Copy, Debug, PartialEq, Eq, Structural)]
pub enum Strategy {
    /// By the polynomial gate.
    Direct,
    /// By the lookup in the tagged table.
    Lookup,
}

/// The configuration of a range check that uses the polynomial gate for
/// ranges below `RANGE` and the table over `LOOKUP_RANGE`, two to the power
/// `LOOKUP_NUMBITS`, for wider ones.
#[derive(Clone, Copy, Debug)]
pub struct RangeCheckConfig<
    const RANGE: usize,
    const LOOKUP_NUMBITS: usize,
    const LOOKUP_RANGE: usize,
> {
    /// The column of the checked values.
    pub value: AdviceColumn,
    /// The column of the bit lengths claimed for the values checked by lookup.
    pub num_bits: AdviceColumn,
    /// The selector of the polynomial gate.
    pub q_range_check: Selector,
    /// The selector of the lookup.
    pub q_lookup: Selector,
    /// The table that the lookup reads.
    pub table: RangeCheckTable<LOOKUP_NUMBITS, LOOKUP_RANGE>,
}

impl<
    const RANGE: usize,
    const LOOKUP_NUMBITS: usize,
    const LOOKUP_RANGE: usize,
> RangeCheckConfig<RANGE, LOOKUP_NUMBITS, LOOKUP_RANGE> {
    /// The two selectors are of the kinds that `configure` allocates: a simple
    /// one for the polynomial gate and a complex one for the lookup.  So they
    /// differ, and so do the table's two columns.
    pub open spec fn wf(self) -> bool {
        &&& is_simple(self.q_range_check)
        &&& !is_simple(self.q_lookup)
        &&& self.table.wf()
    }

    /// The strategy for a required range: none for a range beyond
    /// `LOOKUP_RANGE`, the polynomial gate for one below `RANGE`, else the
    /// lookup.
    pub open spec fn route(range: nat) -> Option<Strategy> {
        if range > LOOKUP_RANGE {
            None
        } else if range < RANGE {
            Some(Strategy::Direct)
        } else {
            Some(Strategy::Lookup)
        }
    }

    /// The selector that a check with `range` enables: that of the polynomial
    /// gate for a range below `RANGE`, else that of the lookup.
    pub open spec fn chosen(self, range: nat) -> Selector {
        if range < RANGE {
            self.q_range_check
        } else {
            self.q_lookup
        }
    }

    /// What a region holds after a check with `range`, given what it held
    /// before, with no selector enabled.  The one selector enabled is the
    /// chosen one, on the first row.  The lookup writes the claimed bit length
    /// first and the value second.
    pub open spec fn checked(
        self,
        before: RegionState,
        value: Value<Assigned<Fp>>,
        num_bits: Value<usize>,
        range: nat,
    ) -> RegionState {
        match Self::route(range) {
            Some(Strategy::Direct) => RegionState {
                enabled: set![(self.chosen(range), 0int)],
                witnessed: before.witnessed.insert((self.value, 0), value),
            },
            Some(Strategy::Lookup) => RegionState {
                enabled: set![(self.chosen(range), 0int)],
                witnessed: before.witnessed.insert(
                    (self.num_bits, 0),
                    tag_element(num_bits),
                ).insert((self.value, 0), value),
            },
            None => before,
        }
    }

    /// Chooses the strategy for a required range.
    pub fn strategy(range: usize) -> (choice: Option<Strategy>)
        ensures
            choice == Self::route(range as nat),
    {
        if range > LOOKUP_RANGE {
            None
        } else if range < RANGE {
            Some(Strategy::Direct)
        } else {
            Some(Strategy::Lookup)
        }
    }

    /// Allocates the selector of the polynomial gate, the selector of the
    /// lookup and the table's two columns, in this order, and registers the
    /// polynomial gate on `value` and the lookup of `value` and `num_bits` in
    /// the table.
    ///
    /// `value` and `num_bits` must be advice columns of `meta`;
    /// [`Self::allocate`] makes them.  `LOOKUP_RANGE` must be two to the power
    /// `LOOKUP_NUMBITS`, which [`RangeCheckTable::check_parameters`] tests.
    pub fn configure(meta: &mut Setup, value: AdviceColumn, num_bits: AdviceColumn) -> (config:
        Self)
        requires
            RangeCheckTable::<LOOKUP_NUMBITS, LOOKUP_RANGE>::parameters_agree(),
            setup_state(*old(meta)).advice_columns.contains(value),
            setup_state(*old(meta)).advice_columns.contains(num_bits),
        ensures
            config.wf(),
            config.value == value,
            config.num_bits == num_bits,
            !setup_state(*old(meta)).selectors.contains(config.q_range_check),
            !setup_state(*old(meta)).selectors.contains(config.q_lookup),
            !setup_state(*old(meta)).table_columns.contains(config.table.num_bits),
            !setup_state(*old(meta)).table_columns.contains(config.table.value),
            setup_state(*final(meta)) == (SetupState {
                selectors: setup_state(*old(meta)).selectors.push(config.q_range_check).push(
                    config.q_lookup,
                ),
                table_columns: setup_state(*old(meta)).table_columns.push(
                    config.table.num_bits,
                ).push(config.table.value),
                gates: setup_state(*old(meta)).gates.push(
                    range_check_gate(config.q_range_check, value, RANGE as nat),
                ),
                lookups: setup_state(*old(meta)).lookups.push(
                    tagged_lookup(
                        config.q_lookup,
                        value,
                        num_bits,
                        config.table.value,
                        config.table.num_bits,
                    ),
                ),
                ..setup_state(*old(meta))
            }),
    {
        let q_range_check = selector(meta);
        let q_lookup = complex_selector(meta);
        proof {
            lemma_absent_before_push(setup_state(*old(meta)).selectors, q_range_check, q_lookup);
        }
        let table = RangeCheckTable::configure(meta);
        create_range_gate(meta, "Range check", q_range_check, value, RANGE);
        add_tagged_lookup(meta, q_lookup, value, num_bits, table.value, table.num_bits);
        Self { value, num_bits, q_range_check, q_lookup, table }
    }

    /// Allocates two new advice columns, first the one for the checked values
    /// and then the one for the claimed bit lengths, and configures the range
    /// check on them.
    ///
    /// `LOOKUP_RANGE` must be two to the power `LOOKUP_NUMBITS`.
    pub fn allocate(meta: &mut Setup) -> (config: Self)
        requires
            RangeCheckTable::<LOOKUP_NUMBITS, LOOKUP_RANGE>::parameters_agree(),
        ensures
            config.wf(),
            config.value != config.num_bits,
            !setup_state(*old(meta)).advice_columns.contains(config.value),
            !setup_state(*old(meta)).advice_columns.contains(config.num_bits),
            !setup_state(*old(meta)).selectors.contains(config.q_range_check),
            !setup_state(*old(meta)).selectors.contains(config.q_lookup),
            !setup_state(*old(meta)).table_columns.contains(config.table.num_bits),
            !setup_state(*old(meta)).table_columns.contains(config.table.value),
            setup_state(*final(meta)) == (SetupState {
                advice_columns: setup_state(*old(meta)).advice_columns.insert(
                    config.value,
                ).insert(config.num_bits),
                selectors: setup_state(*old(meta)).selectors.push(config.q_range_check).push(
                    config.q_lookup,
                ),
                table_columns: setup_state(*old(meta)).table_columns.push(
                    config.table.num_bits,
                ).push(config.table.value),
                gates: setup_state(*old(meta)).gates.push(
                    range_check_gate(config.q_range_check, config.value, RANGE as nat),
                ),
                lookups: setup_state(*old(meta)).lookups.push(
                    tagged_lookup(
                        config.q_lookup,
                        config.value,
                        config.num_bits,
                        config.table.value,
                        config.table.num_bits,
                    ),
                ),
            }),
    {
        let value = advice_column(meta);
        let num_bits = advice_column(meta);
        Self::configure(meta, value, num_bits)
    }

    /// Checks one value on the first row of `region`, by the strategy that
    /// `range` calls for.
    ///
    /// By the polynomial gate: enables its selector and assigns `value`.  By
    /// the lookup: enables its selector and assigns the claimed bit length and
    /// `value`.  The bit length is written as it is given; a wrong one fails
    /// the lookup.
    ///
    /// `range` must not exceed `LOOKUP_RANGE`.  The region must be one of the
    /// circuit that was configured, and a new one: no selector is enabled in
    /// it yet, so that the check has a row of its own.  The backend must hold
    /// the region's first row.  Succeeds where the backend accepts every
    /// request, and stops at the first that it refuses.
    pub fn assign(
        &self,
        region: &mut WitnessRegion,
        value: Value<Assigned<Fp>>,
        num_bits: Value<usize>,
        range: usize,
    ) -> (outcome: Result<(), AssignError>)
        requires
            range <= LOOKUP_RANGE,
            region_selectors(*old(region)).contains(self.chosen(range as nat)),
            region_rows(*old(region)) > 0,
            region_state(*old(region)).enabled.is_empty(),
        ensures
            region_selectors(*final(region)) == region_selectors(*old(region)),
            region_rows(*final(region)) == region_rows(*old(region)),
            outcome is Ok ==> region_state(*final(region)) == self.checked(
                region_state(*old(region)),
                value,
                num_bits,
                range as nat,
            ),
            outcome matches Err(error) ==> error is Selector || error is Witness,
    {
        if range < RANGE {
            assign_checked_value(region, self.q_range_check, self.value, value)
        } else {
            let offset: usize = 0;
            match AssignError::selector(enable_selector(region, self.q_lookup, offset)) {
                Ok(()) => {},
                Err(error) => {
                    return Err(error);
                },
            }
            let tag = tag_value(num_bits);
            match AssignError::witness(
                assign_advice(region, "assign num_bits", self.num_bits, offset, tag),
            ) {
                Ok(()) => {},
                Err(error) => {
                    return Err(error);
                },
            }
            let outcome = AssignError::witness(
                assign_advice(region, "assign value", self.value, offset, value),
            );
            assert(region_state(*old(region)).enabled.insert((self.q_lookup, 0int)) =~= set![
                (self.q_lookup, 0int),
            ]);
            outcome
        }
    }
}

/// Routing: after a check with a range below `RANGE`, the selector of the
/// polynomial gate is enabled on the first row of the region and the
/// lookup's is enabled nowhere in it; after a check with a range from `RANGE`
/// up to `LOOKUP_RANGE`, the reverse.  Either way one selector is enabled in
/// the region.
pub proof fn lemma_routing<
    const RANGE: usize,
    const LOOKUP_NUMBITS: usize,
    const LOOKUP_RANGE: usize,
>(
    config: RangeCheckConfig<RANGE, LOOKUP_NUMBITS, LOOKUP_RANGE>,
    before: RegionState,
    value: Value<Assigned<Fp>>,
    num_bits: Value<usize>,
    range: nat,
)
    requires
        config.wf(),
        range <= LOOKUP_RANGE,
    ensures
        range < RANGE ==> {
            let after = config.checked(before, value, num_bits, range).enabled;
            &&& after.contains((config.q_range_check, 0))
            &&& forall|offset: int| !after.contains((config.q_lookup, offset))
        },
        RANGE <= range ==> {
            let after = config.checked(before, value, num_bits, range).enabled;
            &&& after.contains((config.q_lookup, 0))
            &&& forall|offset: int| !after.contains((config.q_range_check, offset))
        },
        config.checked(before, value, num_bits, range).enabled.len() == 1,
{
}

/// Whether the tagged lookup into the table that covers `0..=range` is
/// satisfied on a row, in the field of order `p`: the pair that the lookup
/// presents on the row is a row of the table.
pub open spec fn lookup_satisfied(
    selector: Selector,
    value: AdviceColumn,
    num_bits: AdviceColumn,
    range: nat,
    row: RowValues,
    p: int,
) -> bool {
    lookup_holds(
        range,
        lookup_tag_input(selector, num_bits).eval(row, p),
        lookup_value_input(selector, value).eval(row, p),
    )
}

/// Completeness and soundness of the tagged lookup.  On a row where the
/// lookup's selector is enabled, the lookup is satisfied exactly where the
/// value cell holds one of `0..=range` and the bit-length cell holds the tag
/// that the table gives that value; a value with any other tag fails it.  On
/// a row where the selector is not enabled it is satisfied whatever the cells
/// hold.  The table's integers are taken to be below `p`.
pub proof fn lemma_lookup_satisfied_iff_tagged(
    selector: Selector,
    value: AdviceColumn,
    num_bits: AdviceColumn,
    range: nat,
    row: RowValues,
    p: int,
)
    requires
        p >= 2,
        range < p,
        is_canonical(row.at(value), p),
        is_canonical(row.at(num_bits), p),
    ensures
        row.enabled.contains(selector) ==> (lookup_satisfied(
            selector,
            value,
            num_bits,
            range,
            row,
            p,
        ) <==> row.at(value) <= range && row.at(num_bits) == tag_of(row.at(value) as nat)),
        !row.enabled.contains(selector) ==> lookup_satisfied(
            selector,
            value,
            num_bits,
            range,
            row,
            p,
        ),
{
    let v = row.at(value);
    let t = row.at(num_bits);
    lemma_lookup_inputs(selector, value, num_bits, row, p);
    if row.enabled.contains(selector) {
        lemma_lookup_sound(range, t, v);
        if v <= range && t == tag_of(v as nat) {
            lemma_lookup_complete(range, v);
        }
    } else {
        lemma_lookup_complete(range, 0);
    }
}

} // verus!
