use super::clifford_gateable::{CliffordGateable, CliffordModel, MeasurementResult};
use super::quantum_simulator::QuantumSimulator;
use crate::vec_set::VecSet;
use vstd::prelude::*;

verus! {

/// A Pauli frame: the qubits that carry an X part and the qubits that carry a Z part.
///
/// A qubit in both sets carries a Y (up to phase); signs and phases are not tracked.
pub type Frame = (Set<usize>, Set<usize>);

/// `s` with membership of `x` flipped.
pub open spec fn toggle(s: Set<usize>, x: usize) -> Set<usize> {
    if s.contains(x) {
        s.remove(x)
    } else {
        s.insert(x)
    }
}

/// The Pauli on qubit `q` as its (X part, Z part).
pub open spec fn pauli_at(v: Frame, q: usize) -> (bool, bool) {
    (v.0.contains(q), v.1.contains(q))
}

/// A simulator that tracks how Pauli operators move through Clifford operations.
///
/// It keeps the set of qubits with an X part and the set with a Z part; a Y is a qubit
/// in both sets. Signs are not tracked.
#[derive(Debug)]
pub struct PauliProp {
    xs: VecSet,
    zs: VecSet,
}

/// The usual instantiation: qubit indices in vector-backed sets.
pub type StdPauliProp = PauliProp;

impl View for PauliProp {
    type V = Frame;

    closed spec fn view(&self) -> Frame {
        (self.xs@, self.zs@)
    }
}

impl PauliProp {
    #[verifier::type_invariant]
    closed spec fn inv(self) -> bool {
        self.xs.wf() && self.zs.wf()
    }

    /// A propagator that tracks no operator yet.
    pub fn new() -> (s: Self)
        ensures
            s@ == (Set::<usize>::empty(), Set::<usize>::empty()),
    {
        PauliProp { xs: VecSet::new(), zs: VecSet::new() }
    }

    /// Whether qubit `item` carries an X part.
    pub fn contains_x(&self, item: usize) -> (b: bool)
        ensures
            b == self@.0.contains(item),
    {
        proof {
            use_type_invariant(self);
        }
        self.xs.contains(item)
    }

    /// Whether qubit `item` carries a Z part.
    pub fn contains_z(&self, item: usize) -> (b: bool)
        ensures
            b == self@.1.contains(item),
    {
        proof {
            use_type_invariant(self);
        }
        self.zs.contains(item)
    }

    /// Whether qubit `item` carries a Y, that is both an X and a Z part.
    pub fn contains_y(&self, item: usize) -> (b: bool)
        ensures
            b == (self@.0.contains(item) && self@.1.contains(item)),
    {
        self.contains_x(item) && self.contains_z(item)
    }

    /// Multiplies an X onto qubit `item`: flips its X part.
    pub fn add_x(&mut self, item: usize)
        ensures
            final(self)@ == (toggle(old(self)@.0, item), old(self)@.1),
    {
        proof {
            use_type_invariant(&*self);
        }
        let mut xs = VecSet::new();
        std::mem::swap(&mut xs, &mut self.xs);
        xs.symmetric_difference_item_update(item);
        self.xs = xs;
    }

    /// Multiplies a Z onto qubit `item`: flips its Z part.
    pub fn add_z(&mut self, item: usize)
        ensures
            final(self)@ == (old(self)@.0, toggle(old(self)@.1, item)),
    {
        proof {
            use_type_invariant(&*self);
        }
        let mut zs = VecSet::new();
        std::mem::swap(&mut zs, &mut self.zs);
        zs.symmetric_difference_item_update(item);
        self.zs = zs;
    }

    /// Multiplies a Y onto qubit `item`: flips both its X and its Z part.
    pub fn add_y(&mut self, item: usize)
        ensures
            final(self)@ == (toggle(old(self)@.0, item), toggle(old(self)@.1, item)),
    {
        self.add_x(item);
        self.add_z(item);
    }
}

impl Clone for PauliProp {
    fn clone(&self) -> (r: Self)
        ensures
            r@ == self@,
    {
        proof {
            use_type_invariant(self);
        }
        PauliProp { xs: self.xs.duplicate(), zs: self.zs.duplicate() }
    }
}

impl Default for PauliProp {
    fn default() -> (s: Self)
        ensures
            s@ == (Set::<usize>::empty(), Set::<usize>::empty()),
    {
        Self::new()
    }
}

impl QuantumSimulator for PauliProp {
    open spec fn reset_spec(v: Frame) -> Frame {
        (Set::<usize>::empty(), Set::<usize>::empty())
    }

    /// Forgets every tracked operator.
    fn reset(&mut self) -> (r: &mut Self) {
        proof {
            use_type_invariant(&*self);
        }
        self.xs = VecSet::new();
        self.zs = VecSet::new();
        self
    }
}

impl CliffordModel for PauliProp {
    /// An X part on `q` gains or loses a Z part.
    open spec fn sz_spec(v: Frame, q: usize) -> Frame {
        if v.0.contains(q) {
            (v.0, toggle(v.1, q))
        } else {
            v
        }
    }

    /// The X and Z parts of `q` are exchanged.
    open spec fn h_spec(v: Frame, q: usize) -> Frame {
        (
            if v.1.contains(q) {
                v.0.insert(q)
            } else {
                v.0.remove(q)
            },
            if v.0.contains(q) {
                v.1.insert(q)
            } else {
                v.1.remove(q)
            },
        )
    }

    /// An X part on the control is copied onto the target; a Z part on the target is
    /// copied onto the control.
    open spec fn cx_spec(v: Frame, q1: usize, q2: usize) -> Frame {
        (
            if v.0.contains(q1) {
                toggle(v.0, q2)
            } else {
                v.0
            },
            if v.1.contains(q2) {
                toggle(v.1, q1)
            } else {
                v.1
            },
        )
    }

    /// The outcome reports an X part on `q`; it is always deterministic and the frame
    /// does not change.
    open spec fn mz_spec(v: Frame, q: usize, m: MeasurementResult, next: Frame) -> bool {
        &&& m.outcome == v.0.contains(q)
        &&& m.is_deterministic
        &&& next == v
    }
}

impl CliffordGateable for PauliProp {
    fn sz(&mut self, q: usize) -> (r: &mut Self) {
        if self.contains_x(q) {
            self.add_z(q);
        }
        self
    }

    fn h(&mut self, q: usize) -> (r: &mut Self) {
        proof {
            use_type_invariant(&*self);
        }
        let in_xs = self.contains_x(q);
        let in_zs = self.contains_z(q);
        if in_xs && in_zs {
            proof {
                assert(self@.0 =~= self@.0.insert(q));
                assert(self@.1 =~= self@.1.insert(q));
            }
        } else if in_xs {
            let mut xs = VecSet::new();
            let mut zs = VecSet::new();
            std::mem::swap(&mut xs, &mut self.xs);
            std::mem::swap(&mut zs, &mut self.zs);
            xs.remove(q);
            zs.insert(q);
            self.xs = xs;
            self.zs = zs;
        } else if in_zs {
            let mut xs = VecSet::new();
            let mut zs = VecSet::new();
            std::mem::swap(&mut xs, &mut self.xs);
            std::mem::swap(&mut zs, &mut self.zs);
            zs.remove(q);
            xs.insert(q);
            self.xs = xs;
            self.zs = zs;
        } else {
            proof {
                assert(self@.0 =~= self@.0.remove(q));
                assert(self@.1 =~= self@.1.remove(q));
            }
        }
        self
    }

    fn cx(&mut self, q1: usize, q2: usize) -> (r: &mut Self) {
        if self.contains_x(q1) {
            self.add_x(q2);
        }
        if self.contains_z(q2) {
            self.add_z(q1);
        }
        self
    }

    /// Reports whether an X part sits on `q`, which would flip a Z measurement.
    fn mz(&mut self, q: usize) -> (m: MeasurementResult) {
        let outcome = self.contains_x(q);
        MeasurementResult { outcome, is_deterministic: true }
    }
}

} // verus!
