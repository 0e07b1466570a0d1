use exp_circuit::field::Felt;
use exp_circuit::trace::{selector_enabled, ExpError, ExpTrace, PublicInputs};

const MODULUS_MINUS_ONE: [u8; 32] = [
    0, 0, 0, 0, 237, 48, 45, 153, 27, 249, 76, 9, 252, 152, 70, 34, 0, 0, 0, 0, 0, 0, 0, 0, 0, 0,
    0, 0, 0, 0, 0, 64,
];

const MODULUS_BYTES: [u8; 32] = [
    1, 0, 0, 0, 237, 48, 45, 153, 27, 249, 76, 9, 252, 152, 70, 34, 0, 0, 0, 0, 0, 0, 0, 0, 0, 0,
    0, 0, 0, 0, 0, 64,
];

fn f(n: u64) -> Felt {
    Felt::from_u64(n)
}

fn public(base: u64, exponent: u64, result: u64) -> PublicInputs {
    PublicInputs { base: f(base), exponent: f(exponent), result: f(result) }
}

#[test]
fn test_exp_circuit() {
    let k = 4;
    let height: usize = 1 << k;
    let public_inputs = public(3, 4, 81);
    let trace = ExpTrace::assign(&public_inputs.base, &public_inputs.exponent, height).unwrap();
    assert!(trace.is_satisfied(&public_inputs));
}

#[test]
fn scenario_a_layout() {
    let trace = ExpTrace::assign(&f(3), &f(4), 16).unwrap();
    assert_eq!(trace.rows(), 4);
    assert_eq!(trace.result, vec![f(3), f(9), f(27), f(81)]);
    assert_eq!(trace.exponent, vec![f(4), f(3), f(2), f(1)]);
    assert_eq!(trace.base, vec![f(3), f(3), f(3), f(3)]);
    assert_eq!(trace.selector, vec![true, true, true, false]);
    assert_eq!(*trace.final_result(), f(81));
    assert!(trace.is_satisfied(&public(3, 4, 81)));
}

#[test]
fn scenario_b_unit_exponent() {
    let trace = ExpTrace::assign(&f(5), &f(1), 16).unwrap();
    assert_eq!(trace.rows(), 1);
    assert_eq!(trace.selector, vec![false]);
    assert_eq!(trace.result, vec![f(5)]);
    assert_eq!(trace.base, vec![f(5)]);
    assert!(trace.is_satisfied(&public(5, 1, 5)));
}

#[test]
fn unit_exponent_rejects_other_result() {
    let trace = ExpTrace::assign(&f(5), &f(1), 16).unwrap();
    assert!(!trace.is_satisfied(&public(5, 1, 25)));
    assert!(!trace.is_satisfied(&public(5, 1, 1)));
}

#[test]
fn scenario_c_wrong_result_rejected() {
    let trace = ExpTrace::assign(&f(3), &f(4), 16).unwrap();
    assert!(!trace.is_satisfied(&public(3, 4, 80)));
}

#[test]
fn wrong_base_or_exponent_rejected() {
    let trace = ExpTrace::assign(&f(3), &f(4), 16).unwrap();
    assert!(!trace.is_satisfied(&public(2, 4, 81)));
    assert!(!trace.is_satisfied(&public(3, 5, 81)));
}

#[test]
fn capacity_probe() {
    assert_eq!(ExpTrace::assign(&f(3), &f(20), 16).err(), Some(ExpError::CapacityError));
}

#[test]
fn capacity_boundary() {
    assert_eq!(ExpTrace::assign(&f(2), &f(16), 16).err(), Some(ExpError::CapacityError));
    let trace = ExpTrace::assign(&f(2), &f(15), 16).unwrap();
    assert_eq!(trace.rows(), 15);
    assert_eq!(*trace.final_result(), f(32768));
    assert!(trace.is_satisfied(&public(2, 15, 32768)));
}

#[test]
fn capacity_tiny_heights() {
    assert_eq!(ExpTrace::assign(&f(3), &f(1), 1).err(), Some(ExpError::CapacityError));
    assert_eq!(ExpTrace::assign(&f(3), &f(1), 0).err(), Some(ExpError::CapacityError));
    assert!(ExpTrace::assign(&f(3), &f(1), 2).is_ok());
}

#[test]
fn capacity_huge_exponent() {
    let e = Felt::from_repr(MODULUS_MINUS_ONE).unwrap();
    assert_eq!(ExpTrace::assign(&f(3), &e, 16).err(), Some(ExpError::CapacityError));
}

#[test]
fn zero_exponent_is_refused() {
    assert_eq!(
        ExpTrace::assign(&f(3), &f(0), 16).err(),
        Some(ExpError::UndefinedRecurrenceError)
    );
}

#[test]
fn assigned_traces_are_accepted() {
    for b in 0..6u64 {
        for e in 1..10u64 {
            let trace = ExpTrace::assign(&f(b), &f(e), 16).unwrap();
            let expected = b.pow(e as u32);
            assert_eq!(*trace.final_result(), f(expected));
            assert!(trace.is_satisfied(&public(b, e, expected)));
            assert!(!trace.is_satisfied(&public(b, e, expected + 1)));
        }
    }
}

#[test]
fn every_single_cell_change_is_rejected() {
    let claim = public(3, 4, 81);
    let trace = ExpTrace::assign(&f(3), &f(4), 16).unwrap();
    for row in 0..4 {
        for column in 0..3 {
            let mut changed = ExpTrace::assign(&f(3), &f(4), 16).unwrap();
            let cell = match column {
                0 => &mut changed.result[row],
                1 => &mut changed.exponent[row],
                _ => &mut changed.base[row],
            };
            *cell = cell.add(&f(1));
            assert!(!changed.is_satisfied(&claim), "row {} column {}", row, column);
        }
    }
    assert!(trace.is_satisfied(&claim));
}

#[test]
fn changed_cell_wrapping_to_zero_is_rejected() {
    let claim = public(3, 4, 81);
    let mut changed = ExpTrace::assign(&f(3), &f(4), 16).unwrap();
    changed.exponent[2] = Felt::from_repr(MODULUS_MINUS_ONE).unwrap();
    assert!(!changed.is_satisfied(&claim));
}

#[test]
fn selector_on_last_row_is_rejected() {
    let claim = public(3, 4, 81);
    let mut changed = ExpTrace::assign(&f(3), &f(4), 16).unwrap();
    changed.selector[3] = true;
    assert!(!changed.is_satisfied(&claim));
}

#[test]
fn ragged_trace_is_rejected() {
    let claim = public(3, 4, 81);
    let mut changed = ExpTrace::assign(&f(3), &f(4), 16).unwrap();
    changed.base.pop();
    assert!(!changed.is_satisfied(&claim));
}

#[test]
fn selector_policy() {
    assert!(selector_enabled(0, 4));
    assert!(selector_enabled(2, 4));
    assert!(!selector_enabled(3, 4));
    assert!(!selector_enabled(0, 1));
    assert!(!selector_enabled(7, 4));
}

#[test]
fn field_arithmetic() {
    assert_eq!(f(3).mul(&f(27)), f(81));
    assert_eq!(f(40).add(&f(2)), f(42));
    assert_eq!(f(4).sub(&f(1)), f(3));
    assert_eq!(Felt::zero(), f(0));
    assert_eq!(Felt::one(), f(1));
    assert!(f(7).equals(&f(7)));
    assert!(!f(7).equals(&f(8)));
}

#[test]
fn field_wraps_at_modulus() {
    let top = Felt::zero().sub(&Felt::one());
    assert_eq!(top.to_repr(), MODULUS_MINUS_ONE);
    assert_eq!(top.add(&Felt::one()), Felt::zero());
    assert_eq!(top.mul(&top), Felt::one());
}

#[test]
fn field_encoding() {
    let mut bytes = [0u8; 32];
    bytes[0] = 0x51;
    bytes[1] = 0x01;
    assert_eq!(f(0x0151).to_repr(), bytes);
    assert_eq!(Felt::from_repr(bytes), Some(f(0x0151)));
    assert_eq!(Felt::from_repr(MODULUS_BYTES), None);
    assert!(Felt::from_repr(MODULUS_MINUS_ONE).is_some());
}
