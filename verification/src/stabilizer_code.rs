use crate::pauli_stabilizer_string::QubitId;
use vstd::prelude::*;

verus! {

/// A stabilizer code: its data qubits, stabilizer generators and boundaries.
pub trait StabilizerCode {
    /// The number of data qubits.
    fn num_data_qubits(&self) -> usize;

    /// The stabilizer generators, each as a list of (Pauli index, qubit) factors.
    fn get_stabilizer_gens(&self) -> Vec<Vec<(usize, QubitId)>>;

    /// The boundaries of the code, each as a list of qubits.
    fn get_boundaries(&self) -> Vec<Vec<QubitId>>;
}

} // verus!
