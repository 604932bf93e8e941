use vstd::prelude::*;

verus! {

/// Base trait for quantum simulators.
///
/// The abstract state of a simulator is its view; `reset_spec` names the state that
/// `reset` returns to (for a state vector the `|0...0>` state, for a Pauli propagator
/// the empty frame).
pub trait QuantumSimulator: Sized + View {
    /// The state reached by resetting from state `v`.
    spec fn reset_spec(v: Self::V) -> Self::V;

    /// Resets the simulator to its initial configuration; returns the simulator for chaining.
    fn reset(&mut self) -> (r: &mut Self)
        ensures
            r@ == Self::reset_spec(old(self)@),
            *final(self) == *final(r),
    ;
}

} // verus!
