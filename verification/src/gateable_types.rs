use vstd::prelude::*;

verus! {

/// The most basic simulator: made for a number of qubits, and reset.
pub trait BaseQuantumSimulator: Sized {
    /// A simulator of `num_qubits` qubits.
    fn new(num_qubits: usize) -> Self;

    /// Returns to the initial state.
    fn reset(&mut self);

    /// The number of qubits.
    fn num_qubits(&self) -> usize;
}

/// The Clifford operations that engines drive: `H`, `CX` and a Z measurement, which gives
/// the outcome and whether it was deterministic.
pub trait CliffordGateable {
    fn h(&mut self, qubit: usize);

    fn cx(&mut self, control: usize, target: usize);

    fn mz(&mut self, qubit: usize) -> (bool, bool);
}

} // verus!
