//! The range check that chooses between the polynomial gate and the tagged
//! lookup, run on the backend's mock prover.

use halo2_proofs::circuit::floor_planner::V1;
use halo2_proofs::circuit::{Layouter, Value};
use halo2_proofs::dev::{FailureLocation, MockProver, VerifyFailure};
use halo2_proofs::pasta::Fp;
use halo2_proofs::plonk::{Any, Assigned, Circuit, ConstraintSystem, Error};
use range_check::backend::{AdviceColumn, Setup, TableRegion, WitnessRegion};
use range_check::error::AssignError;
use range_check::rc3::table::{tag, RangeCheckTable};
use range_check::rc3::{RangeCheckConfig, Strategy};

#[derive(Default)]
struct MyCircuit<const RANGE: usize, const LOOKUP_NUMBITS: usize, const LOOKUP_RANGE: usize> {
    value: Value<Assigned<Fp>>,
    large_value_num_bits: Value<usize>,
    large_value: Value<Assigned<Fp>>,
}

impl<const RANGE: usize, const LOOKUP_NUMBITS: usize, const LOOKUP_RANGE: usize> Circuit<Fp>
    for MyCircuit<RANGE, LOOKUP_NUMBITS, LOOKUP_RANGE>
{
    type Config = RangeCheckConfig<RANGE, LOOKUP_NUMBITS, LOOKUP_RANGE>;
    type FloorPlanner = V1;

    fn without_witnesses(&self) -> Self {
        Self::default()
    }

    fn configure(meta: &mut ConstraintSystem<Fp>) -> Self::Config {
        let value = AdviceColumn(meta.advice_column());
        let num_bits = AdviceColumn(meta.advice_column());
        assert!(RangeCheckTable::<LOOKUP_NUMBITS, LOOKUP_RANGE>::check_parameters());
        RangeCheckConfig::configure(&mut Setup(meta), value, num_bits)
    }

    fn synthesize(
        &self,
        config: Self::Config,
        mut layouter: impl Layouter<Fp>,
    ) -> Result<(), Error> {
        layouter.assign_table(
            || "load range-check table",
            |table| config.table.load(&mut TableRegion(table)).map_err(AssignError::cause),
        )?;
        assign(&config, layouter.namespace(|| "Assign Value"), self.value, Value::known(0), RANGE)?;
        assign(
            &config,
            layouter.namespace(|| "Assign larger Value"),
            self.large_value,
            self.large_value_num_bits,
            LOOKUP_RANGE,
        )?;
        Ok(())
    }
}

/// One check in a region of its own, named after the strategy.
fn assign<const RANGE: usize, const LOOKUP_NUMBITS: usize, const LOOKUP_RANGE: usize>(
    config: &RangeCheckConfig<RANGE, LOOKUP_NUMBITS, LOOKUP_RANGE>,
    mut layouter: impl Layouter<Fp>,
    value: Value<Assigned<Fp>>,
    num_bits: Value<usize>,
    range: usize,
) -> Result<(), Error> {
    assert!(range <= LOOKUP_RANGE);
    let name = if range < RANGE { "Assign value" } else { "Assign value for lookup range check" };
    layouter.assign_region(
        || name,
        |region| {
            config
                .assign(&mut WitnessRegion(region), value, num_bits, range)
                .map_err(AssignError::cause)
        },
    )
}

#[test]
fn rc3_test_range_check() {
    let k = 9;

    // The bit length of 8 is 3: with it the circuit is satisfied.
    let circuit = MyCircuit::<8, 8, 256> {
        value: Value::known(Fp::one().into()),
        large_value_num_bits: Value::known(3),
        large_value: Value::known(Fp::from(8).into()),
    };
    let prover = MockProver::run(k, &circuit, vec![]).unwrap();
    prover.assert_satisfied();

    // With the bit length 4 the pair is no row of the table.
    let circuit = MyCircuit::<8, 8, 256> {
        value: Value::known(Fp::one().into()),
        large_value_num_bits: Value::known(4),
        large_value: Value::known(Fp::from(8).into()),
    };
    let prover = MockProver::run(k, &circuit, vec![]).unwrap();
    assert_eq!(
        prover.verify(),
        Err(vec![VerifyFailure::Lookup {
            lookup_index: 0,
            location: FailureLocation::InRegion {
                region: (2, "Assign value for lookup range check").into(),
                offset: 0,
            },
        }])
    );
}

/// A circuit of single checks, each with its value, claimed bit length and
/// required range.
#[derive(Default)]
struct Checks<const RANGE: usize, const LOOKUP_NUMBITS: usize, const LOOKUP_RANGE: usize> {
    checks: Vec<(Option<Fp>, Option<usize>, usize)>,
}

impl<const RANGE: usize, const LOOKUP_NUMBITS: usize, const LOOKUP_RANGE: usize> Circuit<Fp>
    for Checks<RANGE, LOOKUP_NUMBITS, LOOKUP_RANGE>
{
    type Config = RangeCheckConfig<RANGE, LOOKUP_NUMBITS, LOOKUP_RANGE>;
    type FloorPlanner = V1;

    fn without_witnesses(&self) -> Self {
        // The ranges decide the regions, so they stay; the witnesses go.
        Self { checks: self.checks.iter().map(|check| (None, None, check.2)).collect() }
    }

    fn configure(meta: &mut ConstraintSystem<Fp>) -> Self::Config {
        let value = AdviceColumn(meta.advice_column());
        let num_bits = AdviceColumn(meta.advice_column());
        RangeCheckConfig::configure(&mut Setup(meta), value, num_bits)
    }

    fn synthesize(
        &self,
        config: Self::Config,
        mut layouter: impl Layouter<Fp>,
    ) -> Result<(), Error> {
        layouter.assign_table(
            || "load range-check table",
            |table| config.table.load(&mut TableRegion(table)).map_err(AssignError::cause),
        )?;
        for (value, num_bits, range) in self.checks.iter() {
            let value = match value {
                Some(value) => Value::known((*value).into()),
                None => Value::unknown(),
            };
            let num_bits = match num_bits {
                Some(num_bits) => Value::known(*num_bits),
                None => Value::unknown(),
            };
            assign(&config, layouter.namespace(|| "check"), value, num_bits, *range)?;
        }
        Ok(())
    }
}

fn verify(k: u32, checks: Vec<(Fp, usize, usize)>) -> Result<(), Vec<VerifyFailure>> {
    let checks = checks.into_iter().map(|check| (Some(check.0), Some(check.1), check.2)).collect();
    let circuit = Checks::<8, 8, 256> { checks };
    MockProver::run(k, &circuit, vec![]).unwrap().verify()
}

fn lookup_failure(region: usize) -> VerifyFailure {
    VerifyFailure::Lookup {
        lookup_index: 0,
        location: FailureLocation::InRegion {
            region: (region, "Assign value for lookup range check").into(),
            offset: 0,
        },
    }
}

fn gate_failure(region: usize, cell: &str) -> VerifyFailure {
    VerifyFailure::ConstraintNotSatisfied {
        constraint: ((0, "Range check").into(), 0, "range check").into(),
        location: FailureLocation::InRegion { region: (region, "Assign value").into(), offset: 0 },
        cell_values: vec![(((Any::Advice, 0).into(), 0).into(), cell.to_string())],
    }
}

#[test]
fn strategy_is_the_gate_below_the_bound() {
    assert_eq!(RangeCheckConfig::<8, 8, 256>::strategy(0), Some(Strategy::Direct));
    assert_eq!(RangeCheckConfig::<8, 8, 256>::strategy(1), Some(Strategy::Direct));
    assert_eq!(RangeCheckConfig::<8, 8, 256>::strategy(7), Some(Strategy::Direct));
}

#[test]
fn strategy_is_the_lookup_from_the_bound_to_the_table_range() {
    assert_eq!(RangeCheckConfig::<8, 8, 256>::strategy(8), Some(Strategy::Lookup));
    assert_eq!(RangeCheckConfig::<8, 8, 256>::strategy(9), Some(Strategy::Lookup));
    assert_eq!(RangeCheckConfig::<8, 8, 256>::strategy(256), Some(Strategy::Lookup));
}

#[test]
fn strategy_is_none_beyond_the_table_range() {
    assert_eq!(RangeCheckConfig::<8, 8, 256>::strategy(257), None);
    assert_eq!(RangeCheckConfig::<8, 8, 256>::strategy(usize::MAX), None);
    // The table's range is tested first, also where the other bound is wider.
    assert_eq!(RangeCheckConfig::<300, 8, 256>::strategy(280), None);
    assert_eq!(RangeCheckConfig::<300, 8, 256>::strategy(256), Some(Strategy::Direct));
}

#[test]
fn check_below_the_bound_goes_through_the_gate() {
    // The polynomial gate accepts 1 and refuses 9, whatever bit length is
    // claimed.
    assert_eq!(verify(9, vec![(Fp::one(), 0, 7)]), Ok(()));
    assert_eq!(verify(9, vec![(Fp::one(), 5, 7)]), Ok(()));
    assert_eq!(verify(9, vec![(Fp::from(9), 3, 7)]), Err(vec![gate_failure(1, "0x9")]));
}

#[test]
fn check_from_the_bound_on_goes_through_the_lookup() {
    // The lookup accepts 9 with its bit length, which the polynomial gate
    // would refuse.
    assert_eq!(verify(9, vec![(Fp::from(9), 3, 8)]), Ok(()));
    assert_eq!(verify(9, vec![(Fp::from(9), 3, 256)]), Ok(()));
    // And it refuses 1 with a wrong bit length, which the polynomial gate
    // would accept.
    assert_eq!(verify(9, vec![(Fp::one(), 1, 8)]), Err(vec![lookup_failure(1)]));
}

#[test]
fn lookup_accepts_every_value_of_the_table_with_its_tag() {
    let checks = (0..=256usize)
        .map(|value| (Fp::from(value as u64), tag(value) as usize, 256))
        .collect();
    assert_eq!(verify(10, checks), Ok(()));
}

#[test]
fn lookup_accepts_zero_with_the_tag_one_only() {
    assert_eq!(verify(9, vec![(Fp::zero(), 1, 256)]), Ok(()));
    assert_eq!(verify(9, vec![(Fp::zero(), 0, 256)]), Err(vec![lookup_failure(1)]));
    assert_eq!(verify(9, vec![(Fp::zero(), 2, 256)]), Err(vec![lookup_failure(1)]));
}

#[test]
fn lookup_rejects_a_wrong_tag() {
    for value in 1..=256usize {
        let right = tag(value) as usize;
        assert_eq!(
            verify(9, vec![(Fp::from(value as u64), right + 1, 256)]),
            Err(vec![lookup_failure(1)])
        );
    }
    assert_eq!(verify(9, vec![(Fp::from(8), 2, 256)]), Err(vec![lookup_failure(1)]));
    assert_eq!(verify(9, vec![(Fp::from(8), 8, 256)]), Err(vec![lookup_failure(1)]));
}

#[test]
fn lookup_rejects_a_value_beyond_the_table() {
    assert_eq!(verify(9, vec![(Fp::from(256), 8, 256)]), Ok(()));
    for tag in 0..12 {
        assert_eq!(verify(9, vec![(Fp::from(257), tag, 256)]), Err(vec![lookup_failure(1)]));
    }
    assert_eq!(verify(9, vec![(-Fp::one(), 8, 256)]), Err(vec![lookup_failure(1)]));
}

#[test]
fn each_check_takes_a_row_of_its_own() {
    // The second of three checks fails, and only its region is reported.
    let checks = vec![(Fp::from(3), 0, 7), (Fp::from(8), 0, 7), (Fp::from(200), 7, 256)];
    assert_eq!(verify(9, checks), Err(vec![gate_failure(2, "0x8")]));
    let checks = vec![(Fp::from(3), 0, 7), (Fp::from(8), 4, 256), (Fp::from(5), 0, 7)];
    assert_eq!(verify(9, checks), Err(vec![lookup_failure(2)]));
}

#[test]
fn configure_allocates_in_a_fixed_order() {
    let mut cs = ConstraintSystem::<Fp>::default();
    let value = cs.advice_column();
    let num_bits = cs.advice_column();
    let config = RangeCheckConfig::<8, 8, 256>::configure(
        &mut Setup(&mut cs),
        AdviceColumn(value),
        AdviceColumn(num_bits),
    );
    // A second system hands out the same selectors and columns in the same
    // order: the simple selector, the complex one, the tag column, the value
    // column.
    let mut other = ConstraintSystem::<Fp>::default();
    assert_eq!(config.q_range_check, other.selector());
    assert_eq!(config.q_lookup, other.complex_selector());
    assert_eq!(config.table.num_bits, other.lookup_table_column());
    assert_eq!(config.table.value, other.lookup_table_column());
}

#[test]
fn allocate_makes_two_new_columns_and_configures_on_them() {
    let mut cs = ConstraintSystem::<Fp>::default();
    let earlier = cs.advice_column();
    let config = RangeCheckConfig::<8, 8, 256>::allocate(&mut Setup(&mut cs));
    assert_ne!(config.value.0, earlier);
    assert_ne!(config.num_bits.0, earlier);
    assert_ne!(config.value.0, config.num_bits.0);
    // The value column is allocated first.
    let mut other = ConstraintSystem::<Fp>::default();
    let _earlier = other.advice_column();
    assert_eq!(config.value.0, other.advice_column());
    assert_eq!(config.num_bits.0, other.advice_column());
    assert!(config.q_range_check.is_simple());
    assert!(!config.q_lookup.is_simple());
    assert_eq!(cs.degree(), 9);
}

#[test]
fn configuration_with_lookup_can_be_printed() {
    let mut cs = ConstraintSystem::<Fp>::default();
    let config = RangeCheckConfig::<8, 8, 256>::allocate(&mut Setup(&mut cs));
    let printed = format!("{:?}", config);
    assert!(printed.contains("q_lookup"));
    assert!(printed.contains("table"));
}

#[test]
fn configure_registers_one_gate_and_one_lookup() {
    let mut cs = ConstraintSystem::<Fp>::default();
    let value = cs.advice_column();
    let num_bits = cs.advice_column();
    let config = RangeCheckConfig::<8, 8, 256>::configure(
        &mut Setup(&mut cs),
        AdviceColumn(value),
        AdviceColumn(num_bits),
    );
    assert_eq!(config.value.0, value);
    assert_eq!(config.num_bits.0, num_bits);
    assert!(config.q_range_check.is_simple());
    assert!(!config.q_lookup.is_simple());
    assert_ne!(config.table.value, config.table.num_bits);
    // The degree is that of the bound product and its selector.
    assert_eq!(cs.degree(), 9);
    let pinned = format!("{:?}", cs.pinned());
    assert_eq!(pinned.matches("input_expressions").count(), 1);
}
