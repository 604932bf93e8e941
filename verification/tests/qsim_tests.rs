use pecos::qsim::clifford_gateable::CliffordGateable;
use pecos::qsim::gate_dispatch::{run_1q_gate, run_2q_gate, run_gate};
use pecos::qsim::pauli_prop::PauliProp;
use pecos::qsim::quantum_simulator::QuantumSimulator;
use pecos::vec_set::VecSet;

#[test]
fn test_pauli_prop_add_and_contains() {
    let mut p = PauliProp::new();
    assert!(!p.contains_x(0));
    p.add_x(0);
    assert!(p.contains_x(0));
    assert!(!p.contains_y(0));
    p.add_z(0);
    assert!(p.contains_y(0));
    p.add_y(0);
    assert!(!p.contains_x(0) && !p.contains_z(0));
    p.add_y(3);
    assert!(p.contains_x(3) && p.contains_z(3) && p.contains_y(3));
}

#[test]
fn test_pauli_prop_gates() {
    let mut p = PauliProp::new();
    p.add_x(0);
    p.h(0);
    assert!(p.contains_z(0) && !p.contains_x(0));
    p.h(0);
    p.cx(0, 1);
    assert!(p.contains_x(0) && p.contains_x(1));
    let m = p.mz(1);
    assert!(m.outcome);
    assert!(m.is_deterministic);
    p.reset();
    assert!(!p.contains_x(0) && !p.contains_x(1));
}

#[test]
fn test_run_1q_gate_dispatch() {
    let mut p = PauliProp::new();
    p.add_x(0);
    assert_eq!(run_1q_gate(&mut p, "H", 0), Ok(None));
    assert!(p.contains_z(0) && !p.contains_x(0));
    assert_eq!(run_1q_gate(&mut p, "MZ", 0), Ok(Some(0)));
    assert_eq!(run_1q_gate(&mut p, "MX", 0), Ok(Some(1)));
    assert_eq!(run_1q_gate(&mut p, "SZ", 0), Ok(None));
    assert_eq!(run_1q_gate(&mut p, "PZ", 0), Ok(None));
    assert_eq!(
        run_1q_gate(&mut p, "T", 0),
        Err("Unsupported single-qubit gate".to_string())
    );
}

#[test]
fn test_run_2q_gate_dispatch() {
    let mut p = PauliProp::new();
    p.add_x(0);
    assert_eq!(run_2q_gate(&mut p, "CX", &[0, 1]), Ok(None));
    assert!(p.contains_x(1));
    assert_eq!(run_2q_gate(&mut p, "SWAP", &[1, 2]), Ok(None));
    assert!(p.contains_x(2) && !p.contains_x(1));
    assert_eq!(
        run_2q_gate(&mut p, "CX", &[0]),
        Err("Two-qubit gate requires exactly 2 qubit locations".to_string())
    );
    assert_eq!(
        run_2q_gate(&mut p, "XX", &[0, 1]),
        Err("Unsupported two-qubit gate".to_string())
    );
    assert_eq!(run_gate(&mut p, "Z", &[0]), Ok(None));
    assert_eq!(
        run_gate(&mut p, "Z", &[0, 1, 2]),
        Err("Gate location must be specified for either 1 or 2 qubits".to_string())
    );
}

#[test]
fn test_vec_set_operations() {
    let mut s = VecSet::from_slice(&[3, 1, 3, 2]);
    assert_eq!(s.len(), 3);
    assert!(s.contains(1));
    assert!(s.insert(5));
    assert!(!s.insert(5));
    assert!(s.remove(3));
    assert!(!s.remove(3));
    let t = VecSet::from_slice(&[1, 9]);
    let mut i = s.intersection(&t).to_vec();
    i.sort();
    assert_eq!(i, vec![1]);
    let mut u = s.union(&t).to_vec();
    u.sort();
    assert_eq!(u, vec![1, 2, 5, 9]);
    let mut d = s.symmetric_difference(&t).to_vec();
    d.sort();
    assert_eq!(d, vec![2, 5, 9]);
    s.symmetric_difference_item_update(2);
    assert!(!s.contains(2));
    s.clear();
    assert!(s.is_empty());
}
