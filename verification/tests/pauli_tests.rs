use pecos::pauli::{BitSetPauli, PauliOperator, SetPauli, StdPauli};
use pecos::pauli_stabilizer_string::{Pauli, PauliStabilizerString, PauliString, QubitId};
use pecos::phase::Phase;
use pecos::sign::Sign;

fn assert_sets_equal(left: &[usize], right: &[usize]) {
    let mut l = left.to_vec();
    let mut r = right.to_vec();
    l.sort();
    r.sort();
    assert_eq!(l, r);
}

#[test]
fn test_valid_pauli_creation() {
    let pauli = SetPauli::with_operators(Phase::plus(), &[1usize, 2], &[3usize], &[4usize]).unwrap();
    assert_eq!(pauli.phase(), Phase::plus());
    assert_sets_equal(&pauli.x_positions(), &[1, 2, 3]);
    assert_sets_equal(&pauli.z_positions(), &[3, 4]);
}

#[test]
fn test_overlap_in_x_and_z() {
    let result = StdPauli::with_operators(Phase::minus(), &[1usize, 2], &[3usize], &[2usize, 4]);
    assert!(result.is_err());
    assert_eq!(result.unwrap_err(), "x and z share common elements");
}

#[test]
fn test_y_addition_to_x_and_z() {
    let pauli = SetPauli::with_operators(Phase::plus(), &[1usize], &[2usize], &[3usize]).unwrap();
    assert_sets_equal(&pauli.x_positions(), &[1, 2]);
    assert_sets_equal(&pauli.z_positions(), &[2, 3]);
}

#[test]
fn test_empty_inputs() {
    let pauli = StdPauli::new();
    assert_eq!(pauli.phase(), Phase::plus());
    assert!(pauli.x_positions().is_empty());
    assert!(pauli.z_positions().is_empty());
}

#[test]
fn test_partial_inputs() {
    let pauli = StdPauli::with_operators(Phase::plus_i(), &[1usize, 2], &[], &[]).unwrap();
    assert_eq!(pauli.phase(), Phase::plus_i());
    assert_sets_equal(&pauli.x_positions(), &[1, 2]);
    assert!(pauli.z_positions().is_empty());
}

#[test]
fn test_valid_bitset_pauli_creation() {
    let pauli = BitSetPauli::with_operators(Phase::plus_i(), &[1u8, 2], &[3u8], &[4u8]).unwrap();
    assert_eq!(pauli.phase(), Phase::plus_i());
    assert_eq!(pauli.x_bits(), 0b1110);
    assert_eq!(pauli.z_bits(), 0b11000);
}

#[test]
fn test_bitset_commuting() {
    let p1 = BitSetPauli::with_operators(Phase::plus(), &[0u8, 1], &[], &[2]).unwrap();
    let p2 = BitSetPauli::with_operators(Phase::plus(), &[1u8], &[], &[3]).unwrap();
    assert!(p1.commutes_with(&p2));
}

#[test]
fn test_bitset_anticommuting() {
    let p1 = BitSetPauli::with_operators(Phase::plus(), &[0u8, 1], &[], &[2]).unwrap();
    let p2 = BitSetPauli::with_operators(Phase::plus(), &[1u8], &[], &[0]).unwrap();
    assert!(!p1.commutes_with(&p2));
}

#[test]
fn test_bitset_overlap_detection() {
    let result = BitSetPauli::with_operators(Phase::plus(), &[1u8, 2], &[], &[2u8, 4]);
    assert!(result.is_err());
    assert_eq!(result.unwrap_err(), "x and z share common elements");
}

#[test]
fn test_bitset_range_check() {
    let result = BitSetPauli::with_operators(Phase::plus(), &[65u8], &[], &[2u8, 4]);
    assert!(result.is_err());
    assert_eq!(result.unwrap_err(), "position exceeds 64 qubits");
}

#[test]
fn test_bitset_multiplication() {
    let p1 = BitSetPauli::with_operators(Phase::plus(), &[0u8, 1], &[], &[2]).unwrap();
    let p2 = BitSetPauli::with_operators(Phase::plus(), &[1u8], &[], &[0]).unwrap();
    let result = p1.multiply(&p2);
    assert_eq!(result.phase(), Phase::minus());
    assert_eq!(result.x_bits(), 0b1);
    assert_eq!(result.z_bits(), 0b101);
}

#[test]
fn test_bitset_weight() {
    let pauli = BitSetPauli::with_operators(Phase::plus(), &[1u8, 2], &[3], &[4]).unwrap();
    assert_eq!(pauli.weight(), 4);
}

#[test]
fn test_empty_bitset_pauli() {
    let pauli = BitSetPauli::new();
    assert_eq!(pauli.phase(), Phase::plus());
    assert_eq!(pauli.x_bits(), 0);
    assert_eq!(pauli.z_bits(), 0);
    assert_eq!(pauli.weight(), 0);
}

#[test]
fn test_setpauli_commutes() {
    let p1 = BitSetPauli::with_operators(Phase::plus(), &[0u8, 1], &[], &[2]).unwrap();
    let p2 = BitSetPauli::with_operators(Phase::plus(), &[1u8], &[], &[3]).unwrap();
    assert!(p1.commutes_with(&p2));
}

#[test]
fn test_setpauli_anticommutes() {
    let p1 = StdPauli::with_operators(Phase::plus(), &[0, 1], &[], &[2]).unwrap();
    let p2 = StdPauli::with_operators(Phase::plus(), &[1], &[], &[0]).unwrap();
    assert!(!p1.commutes_with(&p2));
}

#[test]
fn test_bitset_commutes() {
    let p1 = BitSetPauli::with_operators(Phase::plus(), &[0, 1], &[], &[2]).unwrap();
    let p2 = BitSetPauli::with_operators(Phase::plus(), &[1], &[], &[3]).unwrap();
    assert!(p1.commutes_with(&p2));
}

#[test]
fn test_bitset_anticommutes() {
    let p1 = BitSetPauli::with_operators(Phase::plus(), &[0, 1], &[], &[2]).unwrap();
    let p2 = BitSetPauli::with_operators(Phase::plus(), &[1], &[], &[0]).unwrap();
    assert!(!p1.commutes_with(&p2));
}

#[test]
fn test_setpauli_weight_counts_positions_once() {
    let pauli = SetPauli::with_operators(Phase::plus(), &[1usize, 2], &[3], &[4]).unwrap();
    assert_eq!(pauli.weight(), 4);
}

#[test]
fn test_setpauli_multiplication() {
    let p1 = SetPauli::with_operators(Phase::plus(), &[0usize, 1], &[], &[2]).unwrap();
    let p2 = SetPauli::with_operators(Phase::plus(), &[1usize], &[], &[0]).unwrap();
    let r = p1.multiply(&p2);
    assert_eq!(r.phase(), Phase::minus());
    assert_sets_equal(&r.x_positions(), &[0]);
    assert_sets_equal(&r.z_positions(), &[0, 2]);
}

#[test]
fn test_sign_multiply() {
    let sign = Sign::PlusOne;
    match sign {
        Sign::PlusOne => assert_eq!(sign.multiply(Sign::PlusOne), Sign::PlusOne),
        Sign::MinusOne => assert_eq!(sign.multiply(Sign::MinusOne), Sign::PlusOne),
    }
}

#[test]
fn test_sign_products_and_phases() {
    assert_eq!(Sign::MinusOne.multiply(Sign::MinusOne), Sign::PlusOne);
    assert_eq!(Sign::MinusOne.multiply(Sign::PlusOne), Sign::MinusOne);
    assert_eq!(Sign::try_from(Phase::plus()), Ok(Sign::PlusOne));
    assert_eq!(Sign::try_from(Phase::minus()), Ok(Sign::MinusOne));
    assert_eq!(
        Sign::try_from(Phase::plus_i()),
        Err("Invalid phase: Sign can only be PlusOne or MinusOne")
    );
    assert_eq!(Phase::from(Sign::MinusOne), Phase::minus());
    assert_eq!(Phase::from(Sign::PlusOne), Phase::plus());
}

#[test]
fn test_default_phase() {
    assert_eq!(Phase::default(), Phase::plus());
}

#[test]
fn test_phase_multiplication_table() {
    assert_eq!(Phase::plus_i().multiply(&Phase::plus_i()), Phase::minus());
    assert_eq!(Phase::minus_i().multiply(&Phase::plus_i()), Phase::plus());
    assert_eq!(Phase::minus().multiply(&Phase::minus()), Phase::plus());
    assert_eq!(Phase::minus().multiply(&Phase::plus_i()), Phase::minus_i());
    assert!(Phase::plus().equals(&Phase::plus()));
    assert!(!Phase::plus().equals(&Phase::minus()));
}

#[test]
fn test_stabilizer_string_multiply_and_commute() {
    let a = PauliString::new(Phase::minus(), vec![(Pauli::X, QubitId(0)), (Pauli::Z, QubitId(1))]);
    let b = PauliString::new(Phase::plus(), vec![(Pauli::Z, QubitId(0))]);
    let sa = PauliStabilizerString::try_from_pauli_string(&a).unwrap();
    let sb = PauliStabilizerString::try_from_pauli_string(&b).unwrap();
    assert!(!sa.commutes_with(&sb));
    assert!(!sb.commutes_with(&sa));
    assert!(sa.commutes_with(&sa));
    let prod = sa.multiply(&sb);
    assert!(prod.commutes_with(&prod));
    // X0 Z1 Z0 against Z0: X0 anticommutes once, Z0 and Z1 commute.
    assert!(!prod.commutes_with(&sb));
    let twice = prod.multiply(&sa);
    assert!(twice.commutes_with(&sb));
    // (-X0 Z1)(Z0) = -(X0 Z0) Z1 = i Y0 Z1: qubit 0 carries Y, qubit 1 Z.
    assert_eq!(prod.get_paulis(), &vec![(Pauli::Y, QubitId(0)), (Pauli::Z, QubitId(1))]);
    // (Y0 Z1)(X0 Z1) = (Y0 X0)(Z1 Z1) = -i Z0.
    assert_eq!(twice.get_paulis(), &vec![(Pauli::Z, QubitId(0))]);
}

#[test]
fn test_stabilizer_string_product_per_qubit() {
    let x = PauliString::new(Phase::plus(), vec![(Pauli::X, QubitId(2))]);
    let sx = PauliStabilizerString::try_from_pauli_string(&x).unwrap();
    let id = sx.multiply(&sx);
    assert_eq!(id.get_sign(), Sign::PlusOne);
    assert!(id.get_paulis().is_empty());
    // -(X0 Y1)(Y0 X1) = -(X0 Y0)(Y1 X1) = -(iZ0)(-iZ1) = -Z0 Z1.
    let a = PauliString::new(Phase::minus(), vec![(Pauli::X, QubitId(0)), (Pauli::Y, QubitId(1))]);
    let b = PauliString::new(Phase::plus(), vec![(Pauli::Y, QubitId(0)), (Pauli::X, QubitId(1))]);
    let sa = PauliStabilizerString::try_from_pauli_string(&a).unwrap();
    let sb = PauliStabilizerString::try_from_pauli_string(&b).unwrap();
    let p = sa.multiply(&sb);
    assert_eq!(p.get_sign(), Sign::MinusOne);
    assert_eq!(p.get_paulis(), &vec![(Pauli::Z, QubitId(0)), (Pauli::Z, QubitId(1))]);
    // (X2)(Z0 Y1 Y1) = X2 Z0: Y1 Y1 cancels.
    let c = PauliString::new(
        Phase::plus(),
        vec![(Pauli::Z, QubitId(0)), (Pauli::Y, QubitId(1)), (Pauli::Y, QubitId(1))],
    );
    let sc = PauliStabilizerString::try_from_pauli_string(&c).unwrap();
    let q = sx.multiply(&sc);
    assert_eq!(q.get_sign(), Sign::PlusOne);
    assert_eq!(q.get_paulis(), &vec![(Pauli::X, QubitId(2)), (Pauli::Z, QubitId(0))]);
}

#[test]
fn test_stabilizer_string_rejects_imaginary_phase() {
    let a = PauliString::new(Phase::plus_i(), vec![(Pauli::Y, QubitId(3))]);
    let r = PauliStabilizerString::try_from_pauli_string(&a);
    assert_eq!(r.unwrap_err(), "Invalid phase for PauliStabilizerString");
}

#[test]
fn test_stabilizer_string_identity() {
    let i = PauliStabilizerString::new();
    let d = PauliStabilizerString::default();
    let a = PauliString::new(Phase::plus(), vec![(Pauli::I, QubitId(0)), (Pauli::X, QubitId(0))]);
    let sa = PauliStabilizerString::try_from_pauli_string(&a).unwrap();
    assert!(i.commutes_with(&sa));
    assert!(d.commutes_with(&sa));
}

#[test]
fn test_bitset_y_overlap_rejected() {
    let r = BitSetPauli::with_operators(Phase::plus(), &[1u8], &[1u8], &[]);
    assert_eq!(r.unwrap_err(), "y shares elements with x or z");
    let r = BitSetPauli::with_operators(Phase::plus(), &[], &[3u8], &[3u8, 5]);
    assert_eq!(r.unwrap_err(), "y shares elements with x or z");
    // x and z overlap is reported first.
    let r = BitSetPauli::with_operators(Phase::plus(), &[2u8], &[2u8], &[2u8]);
    assert_eq!(r.unwrap_err(), "x and z share common elements");
    let p = BitSetPauli::with_operators(Phase::plus(), &[1u8, 2], &[3u8], &[4u8]).unwrap();
    assert_eq!(p.x_bits(), 0b1110);
    assert_eq!(p.z_bits(), 0b11000);
}

#[test]
fn test_setpauli_positions_keep_insertion_order() {
    let p = SetPauli::with_operators(Phase::plus(), &[3, 1, 3], &[2], &[5]).unwrap();
    assert_eq!(p.x_positions(), vec![3, 1, 2]);
    assert_eq!(p.z_positions(), vec![5, 2]);
    let e = SetPauli::new();
    assert!(e.x_positions().is_empty());
}
