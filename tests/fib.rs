use fib_circuit::cs::{AddGate, Column, ConstraintSystem};
use fib_circuit::fib::{FibChip, FibCircuit, FibConfig, STEPS};
use fib_circuit::field::Felt;
use fib_circuit::layout::{AssignedCell, Cell, Error, Failure, Slot, Trace};

// 2^5 rows, less the rows that the proving system keeps for blinding.
const USABLE_ROWS: usize = 26;

fn seeded(a: u64, b: u64) -> FibCircuit {
    FibCircuit { a: Some(Felt::from_u64(a)), b: Some(Felt::from_u64(b)), steps: STEPS }
}

fn synthesized(circuit: &FibCircuit, rows: usize) -> Result<Trace, Error> {
    let mut cs = ConstraintSystem::new();
    let config = FibCircuit::configure(&mut cs);
    let mut trace = Trace::new(rows);
    circuit.synthesize(config, &mut trace)?;
    Ok(trace)
}

fn felts(values: &[u64]) -> Vec<Felt> {
    values.iter().map(|v| Felt::from_u64(*v)).collect()
}

fn chip() -> FibChip {
    FibChip { config: FibConfig { selector: 0, a: 0, b: 1, target: 0 } }
}

#[test]
fn test_fib() {
    let trace = synthesized(&seeded(1, 1), USABLE_ROWS).unwrap();
    assert_eq!(trace.verify(&felts(&[55])), Ok(()));
}

#[test]
fn wrong_public_output_is_reported_at_its_row() {
    let trace = synthesized(&seeded(1, 1), USABLE_ROWS).unwrap();
    assert_eq!(trace.verify(&felts(&[56])), Err(Failure::Instance { index: 0, row: 0 }));
    assert_eq!(trace.verify(&felts(&[0])), Err(Failure::Instance { index: 0, row: 0 }));
    assert_eq!(trace.verify(&Vec::new()), Err(Failure::Instance { index: 0, row: 0 }));
}

#[test]
fn other_seeds_give_their_own_term() {
    // 2, 3, 5, 8, 13, 21, 34, 55, 89, 144
    let trace = synthesized(&seeded(2, 3), USABLE_ROWS).unwrap();
    assert_eq!(trace.verify(&felts(&[144])), Ok(()));
    assert_eq!(trace.verify(&felts(&[55])), Err(Failure::Instance { index: 0, row: 0 }));
}

#[test]
fn zero_steps_expose_the_first_sum() {
    let circuit = FibCircuit { a: Some(Felt::from_u64(4)), b: Some(Felt::from_u64(9)), steps: 0 };
    let trace = synthesized(&circuit, 2).unwrap();
    assert_eq!(trace.rows(), 2);
    assert_eq!(trace.verify(&felts(&[13])), Ok(()));
}

#[test]
fn trace_needs_two_rows_per_step() {
    assert_eq!(synthesized(&seeded(1, 1), 15).err(), Some(Error::NotEnoughRowsAvailable));
    let trace = synthesized(&seeded(1, 1), 16).unwrap();
    assert_eq!(trace.rows(), 16);
    assert_eq!(trace.verify(&felts(&[55])), Ok(()));
}

#[test]
fn public_input_longer_than_the_trace_is_refused() {
    let trace = synthesized(&seeded(1, 1), 16).unwrap();
    let mut input = felts(&[55]);
    input.resize(17, Felt::zero());
    assert_eq!(trace.verify(&input), Err(Failure::InstanceTooLarge));
    input.truncate(16);
    assert_eq!(trace.verify(&input), Ok(()));
}

#[test]
fn disabled_selector_ignores_a_bad_sum() {
    let mut trace = Trace::new(4);
    assert_eq!(trace.place_region(2), Ok(0));
    trace.assign_advice(Slot::A, 0, Some(Felt::from_u64(1)));
    trace.assign_advice(Slot::B, 0, Some(Felt::from_u64(1)));
    trace.assign_advice(Slot::B, 1, Some(Felt::from_u64(5)));
    assert_eq!(trace.verify(&Vec::new()), Ok(()));
}

#[test]
fn enabled_selector_catches_a_bad_sum() {
    let mut trace = Trace::new(4);
    assert_eq!(trace.place_region(2), Ok(0));
    trace.enable_selector(0);
    trace.assign_advice(Slot::A, 0, Some(Felt::from_u64(1)));
    trace.assign_advice(Slot::B, 0, Some(Felt::from_u64(1)));
    trace.assign_advice(Slot::B, 1, Some(Felt::from_u64(5)));
    assert_eq!(trace.verify(&Vec::new()), Err(Failure::Gate { row: 0 }));
    trace.assign_advice(Slot::B, 1, Some(Felt::from_u64(2)));
    assert_eq!(trace.verify(&Vec::new()), Ok(()));
}

#[test]
fn gate_on_the_last_row_fails() {
    let mut trace = Trace::new(4);
    assert_eq!(trace.place_region(1), Ok(0));
    trace.enable_selector(0);
    trace.assign_advice(Slot::A, 0, Some(Felt::from_u64(1)));
    trace.assign_advice(Slot::B, 0, Some(Felt::from_u64(1)));
    assert_eq!(trace.verify(&Vec::new()), Err(Failure::Gate { row: 0 }));
}

#[test]
fn copied_cell_keeps_the_source_value() {
    let mut trace = Trace::new(4);
    assert_eq!(trace.place_region(2), Ok(0));
    let src = trace.assign_advice(Slot::B, 1, Some(Felt::from_u64(21)));
    let dst = trace.copy_advice(&src, Slot::A, 0);
    assert_eq!(dst.cell, Cell { slot: Slot::A, row: 0 });
    assert!(dst.value.unwrap().equals(&Felt::from_u64(21)));
    assert!(trace.value(dst.cell).unwrap().equals(&Felt::from_u64(21)));
    assert_eq!(trace.verify(&Vec::new()), Ok(()));
}

#[test]
fn broken_copy_is_reported() {
    let mut trace = Trace::new(4);
    assert_eq!(trace.place_region(2), Ok(0));
    let src = trace.assign_advice(Slot::B, 1, Some(Felt::from_u64(21)));
    trace.copy_advice(&src, Slot::A, 0);
    trace.assign_advice(Slot::A, 0, Some(Felt::from_u64(22)));
    assert_eq!(trace.verify(&Vec::new()), Err(Failure::Copy { index: 0 }));
}

#[test]
fn chained_rows_copy_and_add() {
    let fib = chip();
    let mut trace = Trace::new(6);
    let (b0, c0) = fib.assign_first_row(&mut trace, Some(Felt::from_u64(3)), Some(Felt::from_u64(4))).unwrap();
    assert_eq!(b0.cell, Cell { slot: Slot::B, row: 0 });
    assert_eq!(c0.cell, Cell { slot: Slot::B, row: 1 });
    assert!(c0.value.unwrap().equals(&Felt::from_u64(7)));
    let (b1, c1) = fib.assign_next_row(&mut trace, &b0, &c0).unwrap();
    assert_eq!(b1.cell, Cell { slot: Slot::B, row: 2 });
    assert!(b1.value.unwrap().equals(&Felt::from_u64(7)));
    assert!(trace.value(Cell { slot: Slot::A, row: 2 }).unwrap().equals(&Felt::from_u64(4)));
    assert!(c1.value.unwrap().equals(&Felt::from_u64(11)));
    assert_eq!(fib.expose_public(&mut trace, &c1, 6), Err(Error::NotEnoughRowsAvailable));
    assert_eq!(fib.expose_public(&mut trace, &c1, 1), Ok(()));
    assert_eq!(trace.verify(&felts(&[0, 11])), Ok(()));
    assert_eq!(fib.assign_next_row(&mut trace, &b1, &c1).map(|_| ()), Ok(()));
    assert_eq!(fib.assign_next_row(&mut trace, &b1, &c1).err(), Some(Error::NotEnoughRowsAvailable));
}

#[test]
fn unknown_seeds_leave_the_gate_unchecked() {
    let circuit = seeded(1, 1).without_witnesses();
    assert!(circuit.a.is_none() && circuit.b.is_none());
    assert_eq!(circuit.steps, STEPS);
    let trace = synthesized(&circuit, USABLE_ROWS).unwrap();
    assert_eq!(trace.rows(), 16);
    assert_eq!(trace.verify(&felts(&[55])), Err(Failure::Gate { row: 0 }));
}

#[test]
fn synthesis_is_deterministic() {
    let t1 = synthesized(&seeded(1, 1), USABLE_ROWS).unwrap();
    let t2 = synthesized(&seeded(1, 1), USABLE_ROWS).unwrap();
    assert_eq!(t1.rows(), t2.rows());
    for row in 0..t1.rows() {
        for slot in [Slot::A, Slot::B] {
            let c = Cell { slot, row };
            match (t1.value(c), t2.value(c)) {
                (Some(x), Some(y)) => assert!(x.equals(&y)),
                (None, None) => {}
                _ => panic!("cell differs"),
            }
        }
    }
    for v in [54u64, 55, 56] {
        assert_eq!(t1.verify(&felts(&[v])), t2.verify(&felts(&[v])));
    }
}

#[test]
fn configure_allocates_and_enables_equality() {
    let mut cs = ConstraintSystem::new();
    let config = FibChip::configure(&mut cs);
    assert_eq!(config, FibConfig { selector: 0, a: 0, b: 1, target: 0 });
    assert_eq!((cs.num_selectors, cs.num_advice_columns, cs.num_instance_columns), (1, 2, 1));
    assert_eq!(cs.equality, vec![Column::Advice(0), Column::Advice(1), Column::Instance(0)]);
    assert_eq!(cs.gates, vec![AddGate { selector: 0, a: 0, b: 1 }]);
    let again = FibCircuit::configure(&mut cs);
    assert_eq!(again, FibConfig { selector: 1, a: 2, b: 3, target: 1 });
}

#[test]
fn field_addition_and_equality() {
    let sum = Felt::from_u64(2).add(&Felt::from_u64(3));
    assert!(sum.equals(&Felt::from_u64(5)));
    assert!(!sum.equals(&Felt::from_u64(2)));
    assert!(Felt::zero().add(&Felt::one()).equals(&Felt::one()));
    let big = Felt::from_u64(u64::MAX).add(&Felt::from_u64(u64::MAX));
    assert!(!big.equals(&Felt::from_u64(u64::MAX - 1)));
    assert!(big.equals(&Felt::from_u64(u64::MAX - 1).add(&Felt::from_u64(u64::MAX)).add(&Felt::one())));
}

#[test]
fn assigned_cell_carries_its_value() {
    let mut trace = Trace::new(2);
    assert_eq!(trace.place_region(3), Err(Error::NotEnoughRowsAvailable));
    assert_eq!(trace.rows(), 0);
    assert_eq!(trace.place_region(2), Ok(0));
    let cell: AssignedCell = trace.assign_advice(Slot::B, 1, None);
    assert!(cell.value.is_none());
    assert!(trace.value(Cell { slot: Slot::B, row: 1 }).is_none());
}

#[test]
fn trace_lists_its_constraints() {
    let trace = synthesized(&seeded(1, 1), USABLE_ROWS).unwrap();
    assert!(trace.selector_at(0));
    assert!(!trace.selector_at(1));
    assert!(trace.selector_at(14));
    assert_eq!(trace.num_copies(), 2 * STEPS);
    assert_eq!(trace.copy_at(0), (Cell { slot: Slot::B, row: 0 }, Cell { slot: Slot::A, row: 2 }));
    assert_eq!(trace.copy_at(1), (Cell { slot: Slot::B, row: 1 }, Cell { slot: Slot::B, row: 2 }));
    assert_eq!(trace.num_bindings(), 1);
    assert_eq!(trace.binding_at(0), (Cell { slot: Slot::B, row: 15 }, 0));
    assert!(trace.value(Cell { slot: Slot::B, row: 15 }).unwrap().equals(&Felt::from_u64(55)));
    assert!(trace.value(Cell { slot: Slot::A, row: 1 }).is_none());
}

#[test]
fn encoding_is_little_endian() {
    let mut expected = [0u8; 32];
    expected[0] = 0x34;
    expected[1] = 0x12;
    assert_eq!(Felt::from_u64(0x1234).to_repr(), expected);
    assert_eq!(Felt::from_u64(3).add(&Felt::from_u64(4)).to_repr()[0], 7);
}
