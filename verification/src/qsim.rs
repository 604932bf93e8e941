pub mod clifford_gateable;
pub mod quantum_simulator;
pub mod pauli_prop;
pub mod pauli_prop_laws;
pub mod gate_dispatch;
pub mod dispatch_laws;
