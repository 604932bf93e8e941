use super::quantum_simulator::QuantumSimulator;
use vstd::prelude::*;

verus! {

/// The outcome of a measurement.
#[derive(Clone, Copy, Debug, PartialEq, Eq)]
pub struct MeasurementResult {
    /// `true` for the -1 eigenvalue (the "1" outcome), `false` for +1.
    pub outcome: bool,
    /// Whether the measured state was already an eigenstate.
    pub is_deterministic: bool,
}

/// The abstract action of the four primitive Clifford operations on a simulator's state.
///
/// Every other operation of `CliffordGateable` is defined from these four; the spec
/// functions below say how.
pub trait CliffordModel: View {
    /// State after the square root of Z on qubit `q`.
    spec fn sz_spec(v: Self::V, q: usize) -> Self::V;

    /// State after the Hadamard gate on qubit `q`.
    spec fn h_spec(v: Self::V, q: usize) -> Self::V;

    /// State after a controlled-X with control `q1` and target `q2`.
    spec fn cx_spec(v: Self::V, q1: usize, q2: usize) -> Self::V;

    /// Whether a Z measurement of qubit `q` in state `v` may give `m` and leave `next`.
    spec fn mz_spec(v: Self::V, q: usize, m: MeasurementResult, next: Self::V) -> bool;
}
/// State after `z` on qubit `q`, by its decomposition into primitive gates.
pub open spec fn z_spec<S: CliffordModel>(v: S::V, q: usize) -> S::V {
    S::sz_spec(S::sz_spec(v, q), q)
}
/// State after `x` on qubit `q`, by its decomposition into primitive gates.
pub open spec fn x_spec<S: CliffordModel>(v: S::V, q: usize) -> S::V {
    S::h_spec(z_spec::<S>(S::h_spec(v, q), q), q)
}
/// State after `y` on qubit `q`, by its decomposition into primitive gates.
pub open spec fn y_spec<S: CliffordModel>(v: S::V, q: usize) -> S::V {
    x_spec::<S>(z_spec::<S>(v, q), q)
}
/// State after `sx` on qubit `q`, by its decomposition into primitive gates.
pub open spec fn sx_spec<S: CliffordModel>(v: S::V, q: usize) -> S::V {
    S::h_spec(S::sz_spec(S::h_spec(v, q), q), q)
}
/// State after `szdg` on qubit `q`, by its decomposition into primitive gates.
pub open spec fn szdg_spec<S: CliffordModel>(v: S::V, q: usize) -> S::V {
    S::sz_spec(z_spec::<S>(v, q), q)
}
/// State after `sxdg` on qubit `q`, by its decomposition into primitive gates.
pub open spec fn sxdg_spec<S: CliffordModel>(v: S::V, q: usize) -> S::V {
    S::h_spec(szdg_spec::<S>(S::h_spec(v, q), q), q)
}
/// State after `sy` on qubit `q`, by its decomposition into primitive gates.
pub open spec fn sy_spec<S: CliffordModel>(v: S::V, q: usize) -> S::V {
    x_spec::<S>(S::h_spec(v, q), q)
}
/// State after `sydg` on qubit `q`, by its decomposition into primitive gates.
pub open spec fn sydg_spec<S: CliffordModel>(v: S::V, q: usize) -> S::V {
    S::h_spec(x_spec::<S>(v, q), q)
}
/// State after `h2` on qubit `q`, by its decomposition into primitive gates.
pub open spec fn h2_spec<S: CliffordModel>(v: S::V, q: usize) -> S::V {
    z_spec::<S>(sy_spec::<S>(v, q), q)
}
/// State after `h3` on qubit `q`, by its decomposition into primitive gates.
pub open spec fn h3_spec<S: CliffordModel>(v: S::V, q: usize) -> S::V {
    y_spec::<S>(S::sz_spec(v, q), q)
}
/// State after `h4` on qubit `q`, by its decomposition into primitive gates.
pub open spec fn h4_spec<S: CliffordModel>(v: S::V, q: usize) -> S::V {
    x_spec::<S>(S::sz_spec(v, q), q)
}
/// State after `h5` on qubit `q`, by its decomposition into primitive gates.
pub open spec fn h5_spec<S: CliffordModel>(v: S::V, q: usize) -> S::V {
    z_spec::<S>(sx_spec::<S>(v, q), q)
}
/// State after `h6` on qubit `q`, by its decomposition into primitive gates.
pub open spec fn h6_spec<S: CliffordModel>(v: S::V, q: usize) -> S::V {
    y_spec::<S>(sx_spec::<S>(v, q), q)
}
/// State after `f` on qubit `q`, by its decomposition into primitive gates.
pub open spec fn f_spec<S: CliffordModel>(v: S::V, q: usize) -> S::V {
    S::sz_spec(sx_spec::<S>(v, q), q)
}
/// State after `fdg` on qubit `q`, by its decomposition into primitive gates.
pub open spec fn fdg_spec<S: CliffordModel>(v: S::V, q: usize) -> S::V {
    sxdg_spec::<S>(szdg_spec::<S>(v, q), q)
}
/// State after `f2` on qubit `q`, by its decomposition into primitive gates.
pub open spec fn f2_spec<S: CliffordModel>(v: S::V, q: usize) -> S::V {
    sy_spec::<S>(sxdg_spec::<S>(v, q), q)
}
/// State after `f2dg` on qubit `q`, by its decomposition into primitive gates.
pub open spec fn f2dg_spec<S: CliffordModel>(v: S::V, q: usize) -> S::V {
    sx_spec::<S>(sydg_spec::<S>(v, q), q)
}
/// State after `f3` on qubit `q`, by its decomposition into primitive gates.
pub open spec fn f3_spec<S: CliffordModel>(v: S::V, q: usize) -> S::V {
    S::sz_spec(sxdg_spec::<S>(v, q), q)
}
/// State after `f3dg` on qubit `q`, by its decomposition into primitive gates.
pub open spec fn f3dg_spec<S: CliffordModel>(v: S::V, q: usize) -> S::V {
    sx_spec::<S>(szdg_spec::<S>(v, q), q)
}
/// State after `f4` on qubit `q`, by its decomposition into primitive gates.
pub open spec fn f4_spec<S: CliffordModel>(v: S::V, q: usize) -> S::V {
    sx_spec::<S>(S::sz_spec(v, q), q)
}
/// State after `f4dg` on qubit `q`, by its decomposition into primitive gates.
pub open spec fn f4dg_spec<S: CliffordModel>(v: S::V, q: usize) -> S::V {
    szdg_spec::<S>(sxdg_spec::<S>(v, q), q)
}
/// State after `cy` on qubits `q1` and `q2`, by its decomposition into primitive gates.
pub open spec fn cy_spec<S: CliffordModel>(v: S::V, q1: usize, q2: usize) -> S::V {
    szdg_spec::<S>(S::cx_spec(S::sz_spec(v, q2), q1, q2), q2)
}
/// State after `cz` on qubits `q1` and `q2`, by its decomposition into primitive gates.
pub open spec fn cz_spec<S: CliffordModel>(v: S::V, q1: usize, q2: usize) -> S::V {
    S::h_spec(S::cx_spec(S::h_spec(v, q2), q1, q2), q2)
}
/// State after `sxx` on qubits `q1` and `q2`, by its decomposition into primitive gates.
pub open spec fn sxx_spec<S: CliffordModel>(v: S::V, q1: usize, q2: usize) -> S::V {
    sy_spec::<S>(S::cx_spec(sydg_spec::<S>(sx_spec::<S>(sx_spec::<S>(v, q1), q2), q1), q1, q2), q1)
}
/// State after `sxxdg` on qubits `q1` and `q2`, by its decomposition into primitive gates.
pub open spec fn sxxdg_spec<S: CliffordModel>(v: S::V, q1: usize, q2: usize) -> S::V {
    sxx_spec::<S>(x_spec::<S>(x_spec::<S>(v, q1), q2), q1, q2)
}
/// State after `syy` on qubits `q1` and `q2`, by its decomposition into primitive gates.
pub open spec fn syy_spec<S: CliffordModel>(v: S::V, q1: usize, q2: usize) -> S::V {
    S::sz_spec(S::sz_spec(sxx_spec::<S>(szdg_spec::<S>(szdg_spec::<S>(v, q1), q2), q1, q2), q1), q2)
}
/// State after `syydg` on qubits `q1` and `q2`, by its decomposition into primitive gates.
pub open spec fn syydg_spec<S: CliffordModel>(v: S::V, q1: usize, q2: usize) -> S::V {
    syy_spec::<S>(y_spec::<S>(y_spec::<S>(v, q1), q2), q1, q2)
}
/// State after `szz` on qubits `q1` and `q2`, by its decomposition into primitive gates.
pub open spec fn szz_spec<S: CliffordModel>(v: S::V, q1: usize, q2: usize) -> S::V {
    S::h_spec(S::h_spec(sxx_spec::<S>(S::h_spec(S::h_spec(v, q1), q2), q1, q2), q1), q2)
}
/// State after `szzdg` on qubits `q1` and `q2`, by its decomposition into primitive gates.
pub open spec fn szzdg_spec<S: CliffordModel>(v: S::V, q1: usize, q2: usize) -> S::V {
    szz_spec::<S>(z_spec::<S>(z_spec::<S>(v, q1), q2), q1, q2)
}
/// State after `swap` on qubits `q1` and `q2`, by its decomposition into primitive gates.
pub open spec fn swap_spec<S: CliffordModel>(v: S::V, q1: usize, q2: usize) -> S::V {
    S::cx_spec(S::cx_spec(S::cx_spec(v, q1, q2), q2, q1), q1, q2)
}
/// State after `iswap` on qubits `q1` and `q2`, by its decomposition into primitive gates.
pub open spec fn iswap_spec<S: CliffordModel>(v: S::V, q1: usize, q2: usize) -> S::V {
    S::h_spec(S::cx_spec(S::cx_spec(S::h_spec(S::sz_spec(S::sz_spec(v, q1), q2), q1), q1, q2), q2, q1), q2)
}
/// State after `g` on qubits `q1` and `q2`, by its decomposition into primitive gates.
pub open spec fn g_spec<S: CliffordModel>(v: S::V, q1: usize, q2: usize) -> S::V {
    cz_spec::<S>(S::h_spec(S::h_spec(cz_spec::<S>(v, q1, q2), q1), q2), q1, q2)
}
/// Whether `mx` on qubit `q` may give `m` and move the state from `v` to `next`.
pub open spec fn mx_rel<S: CliffordModel>(v: S::V, q: usize, m: MeasurementResult, next: S::V) -> bool {
    exists|mid: S::V| #[trigger] S::mz_spec(S::h_spec(v, q), q, m, mid) && next == S::h_spec(mid, q)
}
/// Whether `mnx` on qubit `q` may give `m` and move the state from `v` to `next`.
pub open spec fn mnx_rel<S: CliffordModel>(v: S::V, q: usize, m: MeasurementResult, next: S::V) -> bool {
    exists|mid: S::V| #[trigger] S::mz_spec(x_spec::<S>(S::h_spec(v, q), q), q, m, mid) && next == S::h_spec(x_spec::<S>(mid, q), q)
}
/// Whether `my` on qubit `q` may give `m` and move the state from `v` to `next`.
pub open spec fn my_rel<S: CliffordModel>(v: S::V, q: usize, m: MeasurementResult, next: S::V) -> bool {
    exists|mid: S::V| #[trigger] S::mz_spec(sx_spec::<S>(v, q), q, m, mid) && next == sxdg_spec::<S>(mid, q)
}
/// Whether `mny` on qubit `q` may give `m` and move the state from `v` to `next`.
pub open spec fn mny_rel<S: CliffordModel>(v: S::V, q: usize, m: MeasurementResult, next: S::V) -> bool {
    exists|mid: S::V| #[trigger] S::mz_spec(sxdg_spec::<S>(v, q), q, m, mid) && next == sx_spec::<S>(mid, q)
}
/// Whether `mnz` on qubit `q` may give `m` and move the state from `v` to `next`.
pub open spec fn mnz_rel<S: CliffordModel>(v: S::V, q: usize, m: MeasurementResult, next: S::V) -> bool {
    exists|mid: S::V| #[trigger] S::mz_spec(x_spec::<S>(v, q), q, m, mid) && next == x_spec::<S>(mid, q)
}
/// Whether `mpx` on qubit `q` may give `m` and move the state from `v` to `next`.
pub open spec fn mpx_rel<S: CliffordModel>(v: S::V, q: usize, m: MeasurementResult, next: S::V) -> bool {
    exists|mid: S::V|
        #[trigger] mx_rel::<S>(v, q, m, mid) && next == (if m.outcome {
            z_spec::<S>(mid, q)
        } else {
            mid
        })
}
/// Whether `mpnx` on qubit `q` may give `m` and move the state from `v` to `next`.
pub open spec fn mpnx_rel<S: CliffordModel>(v: S::V, q: usize, m: MeasurementResult, next: S::V) -> bool {
    exists|mid: S::V|
        #[trigger] mnx_rel::<S>(v, q, m, mid) && next == (if m.outcome {
            z_spec::<S>(mid, q)
        } else {
            mid
        })
}
/// Whether `mpy` on qubit `q` may give `m` and move the state from `v` to `next`.
pub open spec fn mpy_rel<S: CliffordModel>(v: S::V, q: usize, m: MeasurementResult, next: S::V) -> bool {
    exists|mid: S::V|
        #[trigger] my_rel::<S>(v, q, m, mid) && next == (if m.outcome {
            z_spec::<S>(mid, q)
        } else {
            mid
        })
}
/// Whether `mpny` on qubit `q` may give `m` and move the state from `v` to `next`.
pub open spec fn mpny_rel<S: CliffordModel>(v: S::V, q: usize, m: MeasurementResult, next: S::V) -> bool {
    exists|mid: S::V|
        #[trigger] mny_rel::<S>(v, q, m, mid) && next == (if m.outcome {
            z_spec::<S>(mid, q)
        } else {
            mid
        })
}
/// Whether `mpz` on qubit `q` may give `m` and move the state from `v` to `next`.
pub open spec fn mpz_rel<S: CliffordModel>(v: S::V, q: usize, m: MeasurementResult, next: S::V) -> bool {
    exists|mid: S::V|
        #[trigger] S::mz_spec(v, q, m, mid) && next == (if m.outcome {
            x_spec::<S>(mid, q)
        } else {
            mid
        })
}
/// Whether `mpnz` on qubit `q` may give `m` and move the state from `v` to `next`.
pub open spec fn mpnz_rel<S: CliffordModel>(v: S::V, q: usize, m: MeasurementResult, next: S::V) -> bool {
    exists|mid: S::V|
        #[trigger] mnz_rel::<S>(v, q, m, mid) && next == (if m.outcome {
            x_spec::<S>(mid, q)
        } else {
            mid
        })
}
/// Whether `px` on qubit `q` may move the state from `v` to `next`.
pub open spec fn px_rel<S: CliffordModel>(v: S::V, q: usize, next: S::V) -> bool {
    exists|m: MeasurementResult| #[trigger] mpx_rel::<S>(v, q, m, next)
}
/// Whether `pnx` on qubit `q` may move the state from `v` to `next`.
pub open spec fn pnx_rel<S: CliffordModel>(v: S::V, q: usize, next: S::V) -> bool {
    exists|m: MeasurementResult| #[trigger] mpnx_rel::<S>(v, q, m, next)
}
/// Whether `py` on qubit `q` may move the state from `v` to `next`.
pub open spec fn py_rel<S: CliffordModel>(v: S::V, q: usize, next: S::V) -> bool {
    exists|m: MeasurementResult| #[trigger] mpy_rel::<S>(v, q, m, next)
}
/// Whether `pny` on qubit `q` may move the state from `v` to `next`.
pub open spec fn pny_rel<S: CliffordModel>(v: S::V, q: usize, next: S::V) -> bool {
    exists|m: MeasurementResult| #[trigger] mpny_rel::<S>(v, q, m, next)
}
/// Whether `pz` on qubit `q` may move the state from `v` to `next`.
pub open spec fn pz_rel<S: CliffordModel>(v: S::V, q: usize, next: S::V) -> bool {
    exists|m: MeasurementResult| #[trigger] mpz_rel::<S>(v, q, m, next)
}
/// Whether `pnz` on qubit `q` may move the state from `v` to `next`.
pub open spec fn pnz_rel<S: CliffordModel>(v: S::V, q: usize, next: S::V) -> bool {
    exists|m: MeasurementResult| #[trigger] mpnz_rel::<S>(v, q, m, next)
}
/// A simulator of Clifford operations.
///
/// Implementors give `sz`, `h`, `cx` and `mz`; every other gate, measurement and
/// preparation has a default that is built from these, and an implementor that replaces
/// one must keep its effect (its contract says which composition it equals).
pub trait CliffordGateable: QuantumSimulator + CliffordModel {
    /// The identity gate: the state is unchanged.
    fn identity(&mut self, q: usize) -> (r: &mut Self)
        ensures
            r@ == old(self)@,
            *final(self) == *final(r),
    {
        self
    }

    /// Square root of Z (the S gate): `X -> Y`, `Y -> -X`, `Z -> Z`.
    fn sz(&mut self, q: usize) -> (r: &mut Self)
        ensures
            r@ == Self::sz_spec(old(self)@, q),
            *final(self) == *final(r),
    ;

    /// Hadamard gate: `X -> Z`, `Y -> -Y`, `Z -> X`.
    fn h(&mut self, q: usize) -> (r: &mut Self)
        ensures
            r@ == Self::h_spec(old(self)@, q),
            *final(self) == *final(r),
    ;

    /// Pauli Z gate: `X -> -X`, `Y -> -Y`, `Z -> Z`.
    fn z(&mut self, q: usize) -> (r: &mut Self)
        ensures
            r@ == z_spec::<Self>(old(self)@, q),
            *final(self) == *final(r),
    {
        self.sz(q).sz(q)
    }

    /// Pauli X gate: `X -> X`, `Y -> -Y`, `Z -> -Z`.
    fn x(&mut self, q: usize) -> (r: &mut Self)
        ensures
            r@ == x_spec::<Self>(old(self)@, q),
            *final(self) == *final(r),
    {
        self.h(q).z(q).h(q)
    }

    /// Pauli Y gate: `X -> -X`, `Y -> Y`, `Z -> -Z`.
    fn y(&mut self, q: usize) -> (r: &mut Self)
        ensures
            r@ == y_spec::<Self>(old(self)@, q),
            *final(self) == *final(r),
    {
        self.z(q).x(q)
    }

    /// Square root of X: `X -> X`, `Y -> -Z`, `Z -> Y`.
    fn sx(&mut self, q: usize) -> (r: &mut Self)
        ensures
            r@ == sx_spec::<Self>(old(self)@, q),
            *final(self) == *final(r),
    {
        self.h(q).sz(q).h(q)
    }

    /// Adjoint of the square root of Z: `X -> -Y`, `Y -> X`, `Z -> Z`.
    fn szdg(&mut self, q: usize) -> (r: &mut Self)
        ensures
            r@ == szdg_spec::<Self>(old(self)@, q),
            *final(self) == *final(r),
    {
        self.z(q).sz(q)
    }

    /// Adjoint of the square root of X: `X -> X`, `Y -> Z`, `Z -> -Y`.
    fn sxdg(&mut self, q: usize) -> (r: &mut Self)
        ensures
            r@ == sxdg_spec::<Self>(old(self)@, q),
            *final(self) == *final(r),
    {
        self.h(q).szdg(q).h(q)
    }

    /// Square root of Y: `X -> -Z`, `Y -> Y`, `Z -> X`.
    fn sy(&mut self, q: usize) -> (r: &mut Self)
        ensures
            r@ == sy_spec::<Self>(old(self)@, q),
            *final(self) == *final(r),
    {
        self.h(q).x(q)
    }

    /// Adjoint of the square root of Y: `X -> Z`, `Y -> Y`, `Z -> -X`.
    fn sydg(&mut self, q: usize) -> (r: &mut Self)
        ensures
            r@ == sydg_spec::<Self>(old(self)@, q),
            *final(self) == *final(r),
    {
        self.x(q).h(q)
    }

    /// Hadamard-like gate H2: `X -> -Z`, `Y -> -Y`, `Z -> -X`.
    fn h2(&mut self, q: usize) -> (r: &mut Self)
        ensures
            r@ == h2_spec::<Self>(old(self)@, q),
            *final(self) == *final(r),
    {
        self.sy(q).z(q)
    }

    /// Hadamard-like gate H3: `X -> Y`, `Y -> X`, `Z -> -Z`.
    fn h3(&mut self, q: usize) -> (r: &mut Self)
        ensures
            r@ == h3_spec::<Self>(old(self)@, q),
            *final(self) == *final(r),
    {
        self.sz(q).y(q)
    }

    /// Hadamard-like gate H4: `X -> -Y`, `Y -> -X`, `Z -> -Z`.
    fn h4(&mut self, q: usize) -> (r: &mut Self)
        ensures
            r@ == h4_spec::<Self>(old(self)@, q),
            *final(self) == *final(r),
    {
        self.sz(q).x(q)
    }

    /// Hadamard-like gate H5: `X -> -X`, `Y -> Z`, `Z -> Y`.
    fn h5(&mut self, q: usize) -> (r: &mut Self)
        ensures
            r@ == h5_spec::<Self>(old(self)@, q),
            *final(self) == *final(r),
    {
        self.sx(q).z(q)
    }

    /// Hadamard-like gate H6: `X -> -X`, `Y -> -Z`, `Z -> -Y`.
    fn h6(&mut self, q: usize) -> (r: &mut Self)
        ensures
            r@ == h6_spec::<Self>(old(self)@, q),
            *final(self) == *final(r),
    {
        self.sx(q).y(q)
    }

    /// Face rotation F: `X -> Y`, `Y -> Z`, `Z -> X`.
    fn f(&mut self, q: usize) -> (r: &mut Self)
        ensures
            r@ == f_spec::<Self>(old(self)@, q),
            *final(self) == *final(r),
    {
        self.sx(q).sz(q)
    }

    /// Adjoint of F: `X -> Z`, `Y -> X`, `Z -> Y`.
    fn fdg(&mut self, q: usize) -> (r: &mut Self)
        ensures
            r@ == fdg_spec::<Self>(old(self)@, q),
            *final(self) == *final(r),
    {
        self.szdg(q).sxdg(q)
    }

    /// Face rotation F2: `X -> -Z`, `Y -> -X`, `Z -> Y`.
    fn f2(&mut self, q: usize) -> (r: &mut Self)
        ensures
            r@ == f2_spec::<Self>(old(self)@, q),
            *final(self) == *final(r),
    {
        self.sxdg(q).sy(q)
    }

    /// Adjoint of F2: `X -> -Y`, `Y -> Z`, `Z -> -X`.
    fn f2dg(&mut self, q: usize) -> (r: &mut Self)
        ensures
            r@ == f2dg_spec::<Self>(old(self)@, q),
            *final(self) == *final(r),
    {
        self.sydg(q).sx(q)
    }

    /// Face rotation F3: `X -> Y`, `Y -> -Z`, `Z -> -X`.
    fn f3(&mut self, q: usize) -> (r: &mut Self)
        ensures
            r@ == f3_spec::<Self>(old(self)@, q),
            *final(self) == *final(r),
    {
        self.sxdg(q).sz(q)
    }

    /// Adjoint of F3: `X -> -Z`, `Y -> X`, `Z -> -Y`.
    fn f3dg(&mut self, q: usize) -> (r: &mut Self)
        ensures
            r@ == f3dg_spec::<Self>(old(self)@, q),
            *final(self) == *final(r),
    {
        self.szdg(q).sx(q)
    }

    /// Face rotation F4: `X -> Z`, `Y -> -Z`, `Z -> -X`.
    fn f4(&mut self, q: usize) -> (r: &mut Self)
        ensures
            r@ == f4_spec::<Self>(old(self)@, q),
            *final(self) == *final(r),
    {
        self.sz(q).sx(q)
    }

    /// Adjoint of F4: `X -> -Y`, `Y -> Z`, `Z -> -X`.
    fn f4dg(&mut self, q: usize) -> (r: &mut Self)
        ensures
            r@ == f4dg_spec::<Self>(old(self)@, q),
            *final(self) == *final(r),
    {
        self.sxdg(q).szdg(q)
    }

    /// Controlled-X with control `q1` and target `q2`: `XI -> XX`, `IX -> IX`, `ZI -> ZI`, `IZ -> ZZ`.
    fn cx(&mut self, q1: usize, q2: usize) -> (r: &mut Self)
        ensures
            r@ == Self::cx_spec(old(self)@, q1, q2),
            *final(self) == *final(r),
    ;

    /// Controlled-Y: `XI -> XY`, `IX -> IX`, `ZI -> ZI`, `IZ -> ZZ`.
    fn cy(&mut self, q1: usize, q2: usize) -> (r: &mut Self)
        ensures
            r@ == cy_spec::<Self>(old(self)@, q1, q2),
            *final(self) == *final(r),
    {
        self.sz(q2).cx(q1, q2).szdg(q2)
    }

    /// Controlled-Z: `XI -> XZ`, `IX -> ZX`, `ZI -> ZI`, `IZ -> IZ`.
    fn cz(&mut self, q1: usize, q2: usize) -> (r: &mut Self)
        ensures
            r@ == cz_spec::<Self>(old(self)@, q1, q2),
            *final(self) == *final(r),
    {
        self.h(q2).cx(q1, q2).h(q2)
    }

    /// Square root of XX: `XI -> XI`, `IX -> IX`, `ZI -> -YX`, `IZ -> -XY`.
    fn sxx(&mut self, q1: usize, q2: usize) -> (r: &mut Self)
        ensures
            r@ == sxx_spec::<Self>(old(self)@, q1, q2),
            *final(self) == *final(r),
    {
        self.sx(q1).sx(q2).sydg(q1).cx(q1, q2).sy(q1)
    }

    /// Adjoint of the square root of XX: `XI -> XI`, `IX -> IX`, `ZI -> YX`, `IZ -> XY`.
    fn sxxdg(&mut self, q1: usize, q2: usize) -> (r: &mut Self)
        ensures
            r@ == sxxdg_spec::<Self>(old(self)@, q1, q2),
            *final(self) == *final(r),
    {
        self.x(q1).x(q2).sxx(q1, q2)
    }

    /// Square root of YY: `XI -> -ZY`, `IX -> -YZ`, `ZI -> XY`, `IZ -> YX`.
    fn syy(&mut self, q1: usize, q2: usize) -> (r: &mut Self)
        ensures
            r@ == syy_spec::<Self>(old(self)@, q1, q2),
            *final(self) == *final(r),
    {
        self.szdg(q1).szdg(q2).sxx(q1, q2).sz(q1).sz(q2)
    }

    /// Adjoint of the square root of YY: `XI -> ZY`, `IX -> YZ`, `ZI -> -XY`, `IZ -> -YX`.
    fn syydg(&mut self, q1: usize, q2: usize) -> (r: &mut Self)
        ensures
            r@ == syydg_spec::<Self>(old(self)@, q1, q2),
            *final(self) == *final(r),
    {
        self.y(q1).y(q2).syy(q1, q2)
    }

    /// Square root of ZZ: `XI -> YZ`, `IX -> ZY`, `ZI -> ZI`, `IZ -> IZ`.
    fn szz(&mut self, q1: usize, q2: usize) -> (r: &mut Self)
        ensures
            r@ == szz_spec::<Self>(old(self)@, q1, q2),
            *final(self) == *final(r),
    {
        self.h(q1).h(q2).sxx(q1, q2).h(q1).h(q2)
    }

    /// Adjoint of the square root of ZZ: `XI -> -YZ`, `IX -> -ZY`, `ZI -> ZI`, `IZ -> IZ`.
    fn szzdg(&mut self, q1: usize, q2: usize) -> (r: &mut Self)
        ensures
            r@ == szzdg_spec::<Self>(old(self)@, q1, q2),
            *final(self) == *final(r),
    {
        self.z(q1).z(q2).szz(q1, q2)
    }

    /// SWAP: `XI -> IX`, `IX -> XI`, `ZI -> IZ`, `IZ -> ZI`.
    fn swap(&mut self, q1: usize, q2: usize) -> (r: &mut Self)
        ensures
            r@ == swap_spec::<Self>(old(self)@, q1, q2),
            *final(self) == *final(r),
    {
        self.cx(q1, q2).cx(q2, q1).cx(q1, q2)
    }

    /// iSWAP: `XI -> -ZY`, `IX -> YZ`, `ZI -> IZ`, `IZ -> ZI`.
    fn iswap(&mut self, q1: usize, q2: usize) -> (r: &mut Self)
        ensures
            r@ == iswap_spec::<Self>(old(self)@, q1, q2),
            *final(self) == *final(r),
    {
        self.sz(q1).sz(q2).h(q1).cx(q1, q2).cx(q2, q1).h(q2)
    }

    /// The two-qubit Clifford G: `XI -> IX`, `IX -> XI`, `ZI -> XZ`, `IZ -> ZX`.
    fn g(&mut self, q1: usize, q2: usize) -> (r: &mut Self)
        ensures
            r@ == g_spec::<Self>(old(self)@, q1, q2),
            *final(self) == *final(r),
    {
        self.cz(q1, q2).h(q1).h(q2).cz(q1, q2)
    }

    /// Measurement in the Z basis.
    fn mz(&mut self, q: usize) -> (m: MeasurementResult)
        ensures
            Self::mz_spec(old(self)@, q, m, final(self)@),
    ;

    /// Measurement in the X basis.
    fn mx(&mut self, q: usize) -> (m: MeasurementResult)
        ensures
            mx_rel::<Self>(old(self)@, q, m, final(self)@),
    {
        self.h(q);
        let ghost before = self@;
        let meas = self.mz(q);
        let ghost mid = self@;
        self.h(q);
        proof {
            assert(Self::mz_spec(before, q, meas, mid));
        }
        meas
    }

    /// Measurement in the -X basis.
    fn mnx(&mut self, q: usize) -> (m: MeasurementResult)
        ensures
            mnx_rel::<Self>(old(self)@, q, m, final(self)@),
    {
        self.h(q).x(q);
        let ghost before = self@;
        let meas = self.mz(q);
        let ghost mid = self@;
        self.x(q).h(q);
        proof {
            assert(Self::mz_spec(before, q, meas, mid));
        }
        meas
    }

    /// Measurement in the Y basis.
    fn my(&mut self, q: usize) -> (m: MeasurementResult)
        ensures
            my_rel::<Self>(old(self)@, q, m, final(self)@),
    {
        self.sx(q);
        let ghost before = self@;
        let meas = self.mz(q);
        let ghost mid = self@;
        self.sxdg(q);
        proof {
            assert(Self::mz_spec(before, q, meas, mid));
        }
        meas
    }

    /// Measurement in the -Y basis.
    fn mny(&mut self, q: usize) -> (m: MeasurementResult)
        ensures
            mny_rel::<Self>(old(self)@, q, m, final(self)@),
    {
        self.sxdg(q);
        let ghost before = self@;
        let meas = self.mz(q);
        let ghost mid = self@;
        self.sx(q);
        proof {
            assert(Self::mz_spec(before, q, meas, mid));
        }
        meas
    }

    /// Measurement in the -Z basis.
    fn mnz(&mut self, q: usize) -> (m: MeasurementResult)
        ensures
            mnz_rel::<Self>(old(self)@, q, m, final(self)@),
    {
        self.x(q);
        let ghost before = self@;
        let meas = self.mz(q);
        let ghost mid = self@;
        self.x(q);
        proof {
            assert(Self::mz_spec(before, q, meas, mid));
        }
        meas
    }

    /// Measures in the X basis and then prepares `|+>`.
    fn mpx(&mut self, q: usize) -> (m: MeasurementResult)
        ensures
            mpx_rel::<Self>(old(self)@, q, m, final(self)@),
    {
        let ghost before = self@;
        let result = self.mx(q);
        let ghost mid = self@;
        if result.outcome {
            self.z(q);
        }
        proof {
            assert(mx_rel::<Self>(before, q, result, mid));
        }
        result
    }

    /// Measures in the -X basis and then prepares `|->`.
    fn mpnx(&mut self, q: usize) -> (m: MeasurementResult)
        ensures
            mpnx_rel::<Self>(old(self)@, q, m, final(self)@),
    {
        let ghost before = self@;
        let result = self.mnx(q);
        let ghost mid = self@;
        if result.outcome {
            self.z(q);
        }
        proof {
            assert(mnx_rel::<Self>(before, q, result, mid));
        }
        result
    }

    /// Measures in the Y basis and then prepares `|+i>`.
    fn mpy(&mut self, q: usize) -> (m: MeasurementResult)
        ensures
            mpy_rel::<Self>(old(self)@, q, m, final(self)@),
    {
        let ghost before = self@;
        let result = self.my(q);
        let ghost mid = self@;
        if result.outcome {
            self.z(q);
        }
        proof {
            assert(my_rel::<Self>(before, q, result, mid));
        }
        result
    }

    /// Measures in the -Y basis and then prepares `|-i>`.
    fn mpny(&mut self, q: usize) -> (m: MeasurementResult)
        ensures
            mpny_rel::<Self>(old(self)@, q, m, final(self)@),
    {
        let ghost before = self@;
        let result = self.mny(q);
        let ghost mid = self@;
        if result.outcome {
            self.z(q);
        }
        proof {
            assert(mny_rel::<Self>(before, q, result, mid));
        }
        result
    }

    /// Measures in the Z basis and then prepares `|0>`.
    fn mpz(&mut self, q: usize) -> (m: MeasurementResult)
        ensures
            mpz_rel::<Self>(old(self)@, q, m, final(self)@),
    {
        let ghost before = self@;
        let result = self.mz(q);
        let ghost mid = self@;
        if result.outcome {
            self.x(q);
        }
        proof {
            assert(Self::mz_spec(before, q, result, mid));
        }
        result
    }

    /// Measures in the -Z basis and then prepares `|1>`.
    fn mpnz(&mut self, q: usize) -> (m: MeasurementResult)
        ensures
            mpnz_rel::<Self>(old(self)@, q, m, final(self)@),
    {
        let ghost before = self@;
        let result = self.mnz(q);
        let ghost mid = self@;
        if result.outcome {
            self.x(q);
        }
        proof {
            assert(mnz_rel::<Self>(before, q, result, mid));
        }
        result
    }

    /// Prepares `|+>`.
    fn px(&mut self, q: usize) -> (r: &mut Self)
        ensures
            px_rel::<Self>(old(self)@, q, r@),
            *final(self) == *final(r),
    {
        let ghost before = self@;
        let m = self.mpx(q);
        proof {
            assert(mpx_rel::<Self>(before, q, m, self@));
        }
        self
    }

    /// Prepares `|->`.
    fn pnx(&mut self, q: usize) -> (r: &mut Self)
        ensures
            pnx_rel::<Self>(old(self)@, q, r@),
            *final(self) == *final(r),
    {
        let ghost before = self@;
        let m = self.mpnx(q);
        proof {
            assert(mpnx_rel::<Self>(before, q, m, self@));
        }
        self
    }

    /// Prepares `|+i>`.
    fn py(&mut self, q: usize) -> (r: &mut Self)
        ensures
            py_rel::<Self>(old(self)@, q, r@),
            *final(self) == *final(r),
    {
        let ghost before = self@;
        let m = self.mpy(q);
        proof {
            assert(mpy_rel::<Self>(before, q, m, self@));
        }
        self
    }

    /// Prepares `|-i>`.
    fn pny(&mut self, q: usize) -> (r: &mut Self)
        ensures
            pny_rel::<Self>(old(self)@, q, r@),
            *final(self) == *final(r),
    {
        let ghost before = self@;
        let m = self.mpny(q);
        proof {
            assert(mpny_rel::<Self>(before, q, m, self@));
        }
        self
    }

    /// Prepares `|0>`.
    fn pz(&mut self, q: usize) -> (r: &mut Self)
        ensures
            pz_rel::<Self>(old(self)@, q, r@),
            *final(self) == *final(r),
    {
        let ghost before = self@;
        let m = self.mpz(q);
        proof {
            assert(mpz_rel::<Self>(before, q, m, self@));
        }
        self
    }

    /// Prepares `|1>`.
    fn pnz(&mut self, q: usize) -> (r: &mut Self)
        ensures
            pnz_rel::<Self>(old(self)@, q, r@),
            *final(self) == *final(r),
    {
        let ghost before = self@;
        let m = self.mpnz(q);
        proof {
            assert(mpnz_rel::<Self>(before, q, m, self@));
        }
        self
    }
}

} // verus!
