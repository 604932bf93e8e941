use super::clifford_gateable::{
    CliffordModel, MeasurementResult, mx_rel, mnx_rel, my_rel, mny_rel, mnz_rel, mpx_rel, mpnx_rel, mpy_rel,
    mpny_rel, mpz_rel, mpnz_rel, px_rel, pnx_rel, py_rel, pny_rel, pz_rel, pnz_rel, z_spec, x_spec, y_spec, sx_spec, szdg_spec, sxdg_spec, sy_spec, sydg_spec, h2_spec, h3_spec, h4_spec, h5_spec, h6_spec, f_spec, fdg_spec, f2_spec, f2dg_spec, f3_spec, f3dg_spec, f4_spec, f4dg_spec, cy_spec, cz_spec, sxx_spec, sxxdg_spec, syy_spec, syydg_spec, szz_spec, szzdg_spec, swap_spec, iswap_spec, g_spec,
};
use super::pauli_prop::{pauli_at, Frame, PauliProp};
use vstd::prelude::*;

verus! {

// The laws below say how every Clifford operation of `CliffordGateable`, built from its
// decomposition into `sz`, `h` and `cx`, moves the Pauli frame of a `PauliProp`. A
// single-qubit gate is given by the images of X and of Z (the image of Y is their
// product); a two-qubit gate by the images of XI, IX, ZI and IZ. Signs are not tracked.

/// The identity Pauli as (X part, Z part).
pub open spec fn pauli_i() -> (bool, bool) {
    (false, false)
}

/// The Pauli X as (X part, Z part).
pub open spec fn pauli_x() -> (bool, bool) {
    (true, false)
}

/// The Pauli Y as (X part, Z part).
pub open spec fn pauli_y() -> (bool, bool) {
    (true, true)
}

/// The Pauli Z as (X part, Z part).
pub open spec fn pauli_z() -> (bool, bool) {
    (false, true)
}

/// Product of two Paulis, up to phase.
pub open spec fn pauli_mul(a: (bool, bool), b: (bool, bool)) -> (bool, bool) {
    (a.0 != b.0, a.1 != b.1)
}

/// `p` if `b` holds, else the identity.
pub open spec fn pauli_if(b: bool, p: (bool, bool)) -> (bool, bool) {
    if b {
        p
    } else {
        pauli_i()
    }
}

/// Image of the Pauli `p` under the single-qubit map with X -> `ix` and Z -> `iz`.
pub open spec fn image1(p: (bool, bool), ix: (bool, bool), iz: (bool, bool)) -> (bool, bool) {
    pauli_mul(pauli_if(p.0, ix), pauli_if(p.1, iz))
}

/// Image of the two-qubit Pauli (`p1`, `p2`) under the map with the given images of
/// XI, IX, ZI and IZ.
pub open spec fn image2(
    p1: (bool, bool),
    p2: (bool, bool),
    ixi: ((bool, bool), (bool, bool)),
    iix: ((bool, bool), (bool, bool)),
    izi: ((bool, bool), (bool, bool)),
    iiz: ((bool, bool), (bool, bool)),
) -> ((bool, bool), (bool, bool)) {
    (
        pauli_mul(
            pauli_mul(pauli_if(p1.0, ixi.0), pauli_if(p2.0, iix.0)),
            pauli_mul(pauli_if(p1.1, izi.0), pauli_if(p2.1, iiz.0)),
        ),
        pauli_mul(
            pauli_mul(pauli_if(p1.0, ixi.1), pauli_if(p2.0, iix.1)),
            pauli_mul(pauli_if(p1.1, izi.1), pauli_if(p2.1, iiz.1)),
        ),
    )
}

/// Frame `w` is frame `v` with the single-qubit map (X -> `ix`, Z -> `iz`) applied on `q`.
pub open spec fn acts1(v: Frame, w: Frame, q: usize, ix: (bool, bool), iz: (bool, bool)) -> bool {
    forall|r: usize|
        #[trigger] pauli_at(w, r) == if r == q {
            image1(pauli_at(v, q), ix, iz)
        } else {
            pauli_at(v, r)
        }
}

/// Frame `w` is frame `v` with the two-qubit map given by the images of XI, IX, ZI, IZ
/// applied on (`q1`, `q2`).
pub open spec fn acts2(
    v: Frame,
    w: Frame,
    q1: usize,
    q2: usize,
    ixi: ((bool, bool), (bool, bool)),
    iix: ((bool, bool), (bool, bool)),
    izi: ((bool, bool), (bool, bool)),
    iiz: ((bool, bool), (bool, bool)),
) -> bool {
    forall|r: usize|
        #[trigger] pauli_at(w, r) == if r == q1 {
            image2(pauli_at(v, q1), pauli_at(v, q2), ixi, iix, izi, iiz).0
        } else if r == q2 {
            image2(pauli_at(v, q1), pauli_at(v, q2), ixi, iix, izi, iiz).1
        } else {
            pauli_at(v, r)
        }
}

/// The square root of Z on a Pauli frame: X -> Y, Z -> Z.
pub proof fn lemma_sz_frame(v: Frame, q: usize)
    ensures
        acts1(v, PauliProp::sz_spec(v, q), q, pauli_y(), pauli_z()),
{
}

/// The Hadamard gate on a Pauli frame: X -> Z, Z -> X.
pub proof fn lemma_h_frame(v: Frame, q: usize)
    ensures
        acts1(v, PauliProp::h_spec(v, q), q, pauli_z(), pauli_x()),
{
}

/// The controlled-X on a Pauli frame: XI -> XX, IX -> IX, ZI -> ZI, IZ -> ZZ.
pub proof fn lemma_cx_frame(v: Frame, q1: usize, q2: usize)
    requires
        q1 != q2,
    ensures
        acts2(
            v,
            PauliProp::cx_spec(v, q1, q2),
            q1,
            q2,
            (pauli_x(), pauli_x()),
            (pauli_i(), pauli_x()),
            (pauli_z(), pauli_i()),
            (pauli_z(), pauli_z()),
        ),
{
}

/// `z` on a Pauli frame: X -> X, Z -> Z.
pub proof fn lemma_z_frame(v: Frame, q: usize)
    ensures
        acts1(v, z_spec::<PauliProp>(v, q), q, pauli_x(), pauli_z()),
{
    let v1 = PauliProp::sz_spec(v, q);
    lemma_sz_frame(v, q);
    let v2 = PauliProp::sz_spec(v1, q);
    lemma_sz_frame(v1, q);
}

/// `x` on a Pauli frame: X -> X, Z -> Z.
pub proof fn lemma_x_frame(v: Frame, q: usize)
    ensures
        acts1(v, x_spec::<PauliProp>(v, q), q, pauli_x(), pauli_z()),
{
    let v1 = PauliProp::h_spec(v, q);
    lemma_h_frame(v, q);
    let v2 = z_spec::<PauliProp>(v1, q);
    lemma_z_frame(v1, q);
    let v3 = PauliProp::h_spec(v2, q);
    lemma_h_frame(v2, q);
}

/// `y` on a Pauli frame: X -> X, Z -> Z.
pub proof fn lemma_y_frame(v: Frame, q: usize)
    ensures
        acts1(v, y_spec::<PauliProp>(v, q), q, pauli_x(), pauli_z()),
{
    let v1 = z_spec::<PauliProp>(v, q);
    lemma_z_frame(v, q);
    let v2 = x_spec::<PauliProp>(v1, q);
    lemma_x_frame(v1, q);
}

/// `sx` on a Pauli frame: X -> X, Z -> Y.
pub proof fn lemma_sx_frame(v: Frame, q: usize)
    ensures
        acts1(v, sx_spec::<PauliProp>(v, q), q, pauli_x(), pauli_y()),
{
    let v1 = PauliProp::h_spec(v, q);
    lemma_h_frame(v, q);
    let v2 = PauliProp::sz_spec(v1, q);
    lemma_sz_frame(v1, q);
    let v3 = PauliProp::h_spec(v2, q);
    lemma_h_frame(v2, q);
}

/// `szdg` on a Pauli frame: X -> Y, Z -> Z.
pub proof fn lemma_szdg_frame(v: Frame, q: usize)
    ensures
        acts1(v, szdg_spec::<PauliProp>(v, q), q, pauli_y(), pauli_z()),
{
    let v1 = z_spec::<PauliProp>(v, q);
    lemma_z_frame(v, q);
    let v2 = PauliProp::sz_spec(v1, q);
    lemma_sz_frame(v1, q);
}

/// `sxdg` on a Pauli frame: X -> X, Z -> Y.
pub proof fn lemma_sxdg_frame(v: Frame, q: usize)
    ensures
        acts1(v, sxdg_spec::<PauliProp>(v, q), q, pauli_x(), pauli_y()),
{
    let v1 = PauliProp::h_spec(v, q);
    lemma_h_frame(v, q);
    let v2 = szdg_spec::<PauliProp>(v1, q);
    lemma_szdg_frame(v1, q);
    let v3 = PauliProp::h_spec(v2, q);
    lemma_h_frame(v2, q);
}

/// `sy` on a Pauli frame: X -> Z, Z -> X.
pub proof fn lemma_sy_frame(v: Frame, q: usize)
    ensures
        acts1(v, sy_spec::<PauliProp>(v, q), q, pauli_z(), pauli_x()),
{
    let v1 = PauliProp::h_spec(v, q);
    lemma_h_frame(v, q);
    let v2 = x_spec::<PauliProp>(v1, q);
    lemma_x_frame(v1, q);
}

/// `sydg` on a Pauli frame: X -> Z, Z -> X.
pub proof fn lemma_sydg_frame(v: Frame, q: usize)
    ensures
        acts1(v, sydg_spec::<PauliProp>(v, q), q, pauli_z(), pauli_x()),
{
    let v1 = x_spec::<PauliProp>(v, q);
    lemma_x_frame(v, q);
    let v2 = PauliProp::h_spec(v1, q);
    lemma_h_frame(v1, q);
}

/// `h2` on a Pauli frame: X -> Z, Z -> X.
pub proof fn lemma_h2_frame(v: Frame, q: usize)
    ensures
        acts1(v, h2_spec::<PauliProp>(v, q), q, pauli_z(), pauli_x()),
{
    let v1 = sy_spec::<PauliProp>(v, q);
    lemma_sy_frame(v, q);
    let v2 = z_spec::<PauliProp>(v1, q);
    lemma_z_frame(v1, q);
}

/// `h3` on a Pauli frame: X -> Y, Z -> Z.
pub proof fn lemma_h3_frame(v: Frame, q: usize)
    ensures
        acts1(v, h3_spec::<PauliProp>(v, q), q, pauli_y(), pauli_z()),
{
    let v1 = PauliProp::sz_spec(v, q);
    lemma_sz_frame(v, q);
    let v2 = y_spec::<PauliProp>(v1, q);
    lemma_y_frame(v1, q);
}

/// `h4` on a Pauli frame: X -> Y, Z -> Z.
pub proof fn lemma_h4_frame(v: Frame, q: usize)
    ensures
        acts1(v, h4_spec::<PauliProp>(v, q), q, pauli_y(), pauli_z()),
{
    let v1 = PauliProp::sz_spec(v, q);
    lemma_sz_frame(v, q);
    let v2 = x_spec::<PauliProp>(v1, q);
    lemma_x_frame(v1, q);
}

/// `h5` on a Pauli frame: X -> X, Z -> Y.
pub proof fn lemma_h5_frame(v: Frame, q: usize)
    ensures
        acts1(v, h5_spec::<PauliProp>(v, q), q, pauli_x(), pauli_y()),
{
    let v1 = sx_spec::<PauliProp>(v, q);
    lemma_sx_frame(v, q);
    let v2 = z_spec::<PauliProp>(v1, q);
    lemma_z_frame(v1, q);
}

/// `h6` on a Pauli frame: X -> X, Z -> Y.
pub proof fn lemma_h6_frame(v: Frame, q: usize)
    ensures
        acts1(v, h6_spec::<PauliProp>(v, q), q, pauli_x(), pauli_y()),
{
    let v1 = sx_spec::<PauliProp>(v, q);
    lemma_sx_frame(v, q);
    let v2 = y_spec::<PauliProp>(v1, q);
    lemma_y_frame(v1, q);
}

/// `f` on a Pauli frame: X -> Y, Z -> X.
pub proof fn lemma_f_frame(v: Frame, q: usize)
    ensures
        acts1(v, f_spec::<PauliProp>(v, q), q, pauli_y(), pauli_x()),
{
    let v1 = sx_spec::<PauliProp>(v, q);
    lemma_sx_frame(v, q);
    let v2 = PauliProp::sz_spec(v1, q);
    lemma_sz_frame(v1, q);
}

/// `fdg` on a Pauli frame: X -> Z, Z -> Y.
pub proof fn lemma_fdg_frame(v: Frame, q: usize)
    ensures
        acts1(v, fdg_spec::<PauliProp>(v, q), q, pauli_z(), pauli_y()),
{
    let v1 = szdg_spec::<PauliProp>(v, q);
    lemma_szdg_frame(v, q);
    let v2 = sxdg_spec::<PauliProp>(v1, q);
    lemma_sxdg_frame(v1, q);
}

/// `f2` on a Pauli frame: X -> Z, Z -> Y.
pub proof fn lemma_f2_frame(v: Frame, q: usize)
    ensures
        acts1(v, f2_spec::<PauliProp>(v, q), q, pauli_z(), pauli_y()),
{
    let v1 = sxdg_spec::<PauliProp>(v, q);
    lemma_sxdg_frame(v, q);
    let v2 = sy_spec::<PauliProp>(v1, q);
    lemma_sy_frame(v1, q);
}

/// `f2dg` on a Pauli frame: X -> Y, Z -> X.
pub proof fn lemma_f2dg_frame(v: Frame, q: usize)
    ensures
        acts1(v, f2dg_spec::<PauliProp>(v, q), q, pauli_y(), pauli_x()),
{
    let v1 = sydg_spec::<PauliProp>(v, q);
    lemma_sydg_frame(v, q);
    let v2 = sx_spec::<PauliProp>(v1, q);
    lemma_sx_frame(v1, q);
}

/// `f3` on a Pauli frame: X -> Y, Z -> X.
pub proof fn lemma_f3_frame(v: Frame, q: usize)
    ensures
        acts1(v, f3_spec::<PauliProp>(v, q), q, pauli_y(), pauli_x()),
{
    let v1 = sxdg_spec::<PauliProp>(v, q);
    lemma_sxdg_frame(v, q);
    let v2 = PauliProp::sz_spec(v1, q);
    lemma_sz_frame(v1, q);
}

/// `f3dg` on a Pauli frame: X -> Z, Z -> Y.
pub proof fn lemma_f3dg_frame(v: Frame, q: usize)
    ensures
        acts1(v, f3dg_spec::<PauliProp>(v, q), q, pauli_z(), pauli_y()),
{
    let v1 = szdg_spec::<PauliProp>(v, q);
    lemma_szdg_frame(v, q);
    let v2 = sx_spec::<PauliProp>(v1, q);
    lemma_sx_frame(v1, q);
}

/// `f4` on a Pauli frame: X -> Z, Z -> Y.
pub proof fn lemma_f4_frame(v: Frame, q: usize)
    ensures
        acts1(v, f4_spec::<PauliProp>(v, q), q, pauli_z(), pauli_y()),
{
    let v1 = PauliProp::sz_spec(v, q);
    lemma_sz_frame(v, q);
    let v2 = sx_spec::<PauliProp>(v1, q);
    lemma_sx_frame(v1, q);
}

/// `f4dg` on a Pauli frame: X -> Y, Z -> X.
pub proof fn lemma_f4dg_frame(v: Frame, q: usize)
    ensures
        acts1(v, f4dg_spec::<PauliProp>(v, q), q, pauli_y(), pauli_x()),
{
    let v1 = sxdg_spec::<PauliProp>(v, q);
    lemma_sxdg_frame(v, q);
    let v2 = szdg_spec::<PauliProp>(v1, q);
    lemma_szdg_frame(v1, q);
}

/// `cy` on a Pauli frame: XI -> XY, IX -> ZX, ZI -> ZI, IZ -> ZZ.
pub proof fn lemma_cy_frame(v: Frame, q1: usize, q2: usize)
    requires
        q1 != q2,
    ensures
        acts2(v, cy_spec::<PauliProp>(v, q1, q2), q1, q2, (pauli_x(), pauli_y()), (pauli_z(), pauli_x()), (pauli_z(), pauli_i()), (pauli_z(), pauli_z())),
{
    let v1 = PauliProp::sz_spec(v, q2);
    lemma_sz_frame(v, q2);
    let v2 = PauliProp::cx_spec(v1, q1, q2);
    lemma_cx_frame(v1, q1, q2);
    let v3 = szdg_spec::<PauliProp>(v2, q2);
    lemma_szdg_frame(v2, q2);
}

/// `cz` on a Pauli frame: XI -> XZ, IX -> ZX, ZI -> ZI, IZ -> IZ.
pub proof fn lemma_cz_frame(v: Frame, q1: usize, q2: usize)
    requires
        q1 != q2,
    ensures
        acts2(v, cz_spec::<PauliProp>(v, q1, q2), q1, q2, (pauli_x(), pauli_z()), (pauli_z(), pauli_x()), (pauli_z(), pauli_i()), (pauli_i(), pauli_z())),
{
    let v1 = PauliProp::h_spec(v, q2);
    lemma_h_frame(v, q2);
    let v2 = PauliProp::cx_spec(v1, q1, q2);
    lemma_cx_frame(v1, q1, q2);
    let v3 = PauliProp::h_spec(v2, q2);
    lemma_h_frame(v2, q2);
}

/// `sxx` on a Pauli frame: XI -> XI, IX -> IX, ZI -> YX, IZ -> XY.
pub proof fn lemma_sxx_frame(v: Frame, q1: usize, q2: usize)
    requires
        q1 != q2,
    ensures
        acts2(v, sxx_spec::<PauliProp>(v, q1, q2), q1, q2, (pauli_x(), pauli_i()), (pauli_i(), pauli_x()), (pauli_y(), pauli_x()), (pauli_x(), pauli_y())),
{
    let v1 = sx_spec::<PauliProp>(v, q1);
    lemma_sx_frame(v, q1);
    let v2 = sx_spec::<PauliProp>(v1, q2);
    lemma_sx_frame(v1, q2);
    let v3 = sydg_spec::<PauliProp>(v2, q1);
    lemma_sydg_frame(v2, q1);
    let v4 = PauliProp::cx_spec(v3, q1, q2);
    lemma_cx_frame(v3, q1, q2);
    let v5 = sy_spec::<PauliProp>(v4, q1);
    lemma_sy_frame(v4, q1);
}

/// `sxxdg` on a Pauli frame: XI -> XI, IX -> IX, ZI -> YX, IZ -> XY.
pub proof fn lemma_sxxdg_frame(v: Frame, q1: usize, q2: usize)
    requires
        q1 != q2,
    ensures
        acts2(v, sxxdg_spec::<PauliProp>(v, q1, q2), q1, q2, (pauli_x(), pauli_i()), (pauli_i(), pauli_x()), (pauli_y(), pauli_x()), (pauli_x(), pauli_y())),
{
    let v1 = x_spec::<PauliProp>(v, q1);
    lemma_x_frame(v, q1);
    let v2 = x_spec::<PauliProp>(v1, q2);
    lemma_x_frame(v1, q2);
    let v3 = sxx_spec::<PauliProp>(v2, q1, q2);
    lemma_sxx_frame(v2, q1, q2);
}

/// `syy` on a Pauli frame: XI -> ZY, IX -> YZ, ZI -> XY, IZ -> YX.
pub proof fn lemma_syy_frame(v: Frame, q1: usize, q2: usize)
    requires
        q1 != q2,
    ensures
        acts2(v, syy_spec::<PauliProp>(v, q1, q2), q1, q2, (pauli_z(), pauli_y()), (pauli_y(), pauli_z()), (pauli_x(), pauli_y()), (pauli_y(), pauli_x())),
{
    let v1 = szdg_spec::<PauliProp>(v, q1);
    lemma_szdg_frame(v, q1);
    let v2 = szdg_spec::<PauliProp>(v1, q2);
    lemma_szdg_frame(v1, q2);
    let v3 = sxx_spec::<PauliProp>(v2, q1, q2);
    lemma_sxx_frame(v2, q1, q2);
    let v4 = PauliProp::sz_spec(v3, q1);
    lemma_sz_frame(v3, q1);
    let v5 = PauliProp::sz_spec(v4, q2);
    lemma_sz_frame(v4, q2);
}

/// `syydg` on a Pauli frame: XI -> ZY, IX -> YZ, ZI -> XY, IZ -> YX.
pub proof fn lemma_syydg_frame(v: Frame, q1: usize, q2: usize)
    requires
        q1 != q2,
    ensures
        acts2(v, syydg_spec::<PauliProp>(v, q1, q2), q1, q2, (pauli_z(), pauli_y()), (pauli_y(), pauli_z()), (pauli_x(), pauli_y()), (pauli_y(), pauli_x())),
{
    let v1 = y_spec::<PauliProp>(v, q1);
    lemma_y_frame(v, q1);
    let v2 = y_spec::<PauliProp>(v1, q2);
    lemma_y_frame(v1, q2);
    let v3 = syy_spec::<PauliProp>(v2, q1, q2);
    lemma_syy_frame(v2, q1, q2);
}

/// `szz` on a Pauli frame: XI -> YZ, IX -> ZY, ZI -> ZI, IZ -> IZ.
pub proof fn lemma_szz_frame(v: Frame, q1: usize, q2: usize)
    requires
        q1 != q2,
    ensures
        acts2(v, szz_spec::<PauliProp>(v, q1, q2), q1, q2, (pauli_y(), pauli_z()), (pauli_z(), pauli_y()), (pauli_z(), pauli_i()), (pauli_i(), pauli_z())),
{
    let v1 = PauliProp::h_spec(v, q1);
    lemma_h_frame(v, q1);
    let v2 = PauliProp::h_spec(v1, q2);
    lemma_h_frame(v1, q2);
    let v3 = sxx_spec::<PauliProp>(v2, q1, q2);
    lemma_sxx_frame(v2, q1, q2);
    let v4 = PauliProp::h_spec(v3, q1);
    lemma_h_frame(v3, q1);
    let v5 = PauliProp::h_spec(v4, q2);
    lemma_h_frame(v4, q2);
}

/// `szzdg` on a Pauli frame: XI -> YZ, IX -> ZY, ZI -> ZI, IZ -> IZ.
pub proof fn lemma_szzdg_frame(v: Frame, q1: usize, q2: usize)
    requires
        q1 != q2,
    ensures
        acts2(v, szzdg_spec::<PauliProp>(v, q1, q2), q1, q2, (pauli_y(), pauli_z()), (pauli_z(), pauli_y()), (pauli_z(), pauli_i()), (pauli_i(), pauli_z())),
{
    let v1 = z_spec::<PauliProp>(v, q1);
    lemma_z_frame(v, q1);
    let v2 = z_spec::<PauliProp>(v1, q2);
    lemma_z_frame(v1, q2);
    let v3 = szz_spec::<PauliProp>(v2, q1, q2);
    lemma_szz_frame(v2, q1, q2);
}

/// `swap` on a Pauli frame: XI -> IX, IX -> XI, ZI -> IZ, IZ -> ZI.
pub proof fn lemma_swap_frame(v: Frame, q1: usize, q2: usize)
    requires
        q1 != q2,
    ensures
        acts2(v, swap_spec::<PauliProp>(v, q1, q2), q1, q2, (pauli_i(), pauli_x()), (pauli_x(), pauli_i()), (pauli_i(), pauli_z()), (pauli_z(), pauli_i())),
{
    let v1 = PauliProp::cx_spec(v, q1, q2);
    lemma_cx_frame(v, q1, q2);
    let v2 = PauliProp::cx_spec(v1, q2, q1);
    lemma_cx_frame(v1, q2, q1);
    let v3 = PauliProp::cx_spec(v2, q1, q2);
    lemma_cx_frame(v2, q1, q2);
}

/// `iswap` on a Pauli frame: XI -> ZY, IX -> YZ, ZI -> IZ, IZ -> ZI.
pub proof fn lemma_iswap_frame(v: Frame, q1: usize, q2: usize)
    requires
        q1 != q2,
    ensures
        acts2(v, iswap_spec::<PauliProp>(v, q1, q2), q1, q2, (pauli_z(), pauli_y()), (pauli_y(), pauli_z()), (pauli_i(), pauli_z()), (pauli_z(), pauli_i())),
{
    let v1 = PauliProp::sz_spec(v, q1);
    lemma_sz_frame(v, q1);
    let v2 = PauliProp::sz_spec(v1, q2);
    lemma_sz_frame(v1, q2);
    let v3 = PauliProp::h_spec(v2, q1);
    lemma_h_frame(v2, q1);
    let v4 = PauliProp::cx_spec(v3, q1, q2);
    lemma_cx_frame(v3, q1, q2);
    let v5 = PauliProp::cx_spec(v4, q2, q1);
    lemma_cx_frame(v4, q2, q1);
    let v6 = PauliProp::h_spec(v5, q2);
    lemma_h_frame(v5, q2);
}

/// `g` on a Pauli frame: XI -> IX, IX -> XI, ZI -> XZ, IZ -> ZX.
pub proof fn lemma_g_frame(v: Frame, q1: usize, q2: usize)
    requires
        q1 != q2,
    ensures
        acts2(v, g_spec::<PauliProp>(v, q1, q2), q1, q2, (pauli_i(), pauli_x()), (pauli_x(), pauli_i()), (pauli_x(), pauli_z()), (pauli_z(), pauli_x())),
{
    let v1 = cz_spec::<PauliProp>(v, q1, q2);
    lemma_cz_frame(v, q1, q2);
    let v2 = PauliProp::h_spec(v1, q1);
    lemma_h_frame(v1, q1);
    let v3 = PauliProp::h_spec(v2, q2);
    lemma_h_frame(v2, q2);
    let v4 = cz_spec::<PauliProp>(v3, q1, q2);
    lemma_cz_frame(v3, q1, q2);
}

/// Two frames that agree on every qubit are equal.
pub proof fn lemma_frame_ext(v: Frame, w: Frame)
    requires
        forall|r: usize| #[trigger] pauli_at(w, r) == pauli_at(v, r),
    ensures
        w == v,
{
    assert forall|r: usize| w.0.contains(r) == v.0.contains(r) && w.1.contains(r) == v.1.contains(r) by {
        assert(pauli_at(w, r) == pauli_at(v, r));
    }
    assert(w.0 =~= v.0);
    assert(w.1 =~= v.1);
}

/// Applying the Hadamard gate twice restores the frame.
pub proof fn lemma_h_involution(v: Frame, q: usize)
    ensures
        PauliProp::h_spec(PauliProp::h_spec(v, q), q) == v,
{
    lemma_h_frame(v, q);
    lemma_h_frame(PauliProp::h_spec(v, q), q);
    lemma_frame_ext(v, PauliProp::h_spec(PauliProp::h_spec(v, q), q));
}

/// Applying the controlled-X twice on distinct qubits restores the frame.
pub proof fn lemma_cx_involution(v: Frame, q1: usize, q2: usize)
    requires
        q1 != q2,
    ensures
        PauliProp::cx_spec(PauliProp::cx_spec(v, q1, q2), q1, q2) == v,
{
    lemma_cx_frame(v, q1, q2);
    lemma_cx_frame(PauliProp::cx_spec(v, q1, q2), q1, q2);
    lemma_frame_ext(v, PauliProp::cx_spec(PauliProp::cx_spec(v, q1, q2), q1, q2));
}

/// The Pauli gates X, Y and Z leave a frame unchanged (they only change signs).
pub proof fn lemma_paulis_keep_frame(v: Frame, q: usize)
    ensures
        x_spec::<PauliProp>(v, q) == v,
        y_spec::<PauliProp>(v, q) == v,
        z_spec::<PauliProp>(v, q) == v,
{
    lemma_x_frame(v, q);
    lemma_y_frame(v, q);
    lemma_z_frame(v, q);
    lemma_frame_ext(v, x_spec::<PauliProp>(v, q));
    lemma_frame_ext(v, y_spec::<PauliProp>(v, q));
    lemma_frame_ext(v, z_spec::<PauliProp>(v, q));
}

/// Swapping twice restores the frame.
pub proof fn lemma_swap_involution(v: Frame, q1: usize, q2: usize)
    requires
        q1 != q2,
    ensures
        swap_spec::<PauliProp>(swap_spec::<PauliProp>(v, q1, q2), q1, q2) == v,
{
    lemma_swap_frame(v, q1, q2);
    lemma_swap_frame(swap_spec::<PauliProp>(v, q1, q2), q1, q2);
    lemma_frame_ext(v, swap_spec::<PauliProp>(swap_spec::<PauliProp>(v, q1, q2), q1, q2));
}

/// A Z measurement reports the X part of `q`, is deterministic and keeps the frame.
pub proof fn lemma_mz_frame(v: Frame, q: usize, m: MeasurementResult, n: Frame)
    requires
        PauliProp::mz_spec(v, q, m, n),
    ensures
        m.outcome == v.0.contains(q),
        m.is_deterministic,
        n == v,
{
}

/// `mx` on a Pauli frame: the outcome reports the Z part of `q`, it is deterministic and the frame is kept.
pub proof fn lemma_mx_frame(v: Frame, q: usize, m: MeasurementResult, n: Frame)
    requires
        mx_rel::<PauliProp>(v, q, m, n),
    ensures
        m.outcome == (v.1.contains(q)),
        m.is_deterministic,
        n == v,
{
    let a = PauliProp::h_spec(v, q);
    lemma_h_frame(v, q);
    lemma_h_frame(a, q);
    lemma_frame_ext(v, PauliProp::h_spec(a, q));
}

/// `mnx` on a Pauli frame: the outcome reports the Z part of `q`, it is deterministic and the frame is kept.
pub proof fn lemma_mnx_frame(v: Frame, q: usize, m: MeasurementResult, n: Frame)
    requires
        mnx_rel::<PauliProp>(v, q, m, n),
    ensures
        m.outcome == (v.1.contains(q)),
        m.is_deterministic,
        n == v,
{
    let a = PauliProp::h_spec(v, q);
    let b = x_spec::<PauliProp>(a, q);
    lemma_h_frame(v, q);
    lemma_x_frame(a, q);
    lemma_x_frame(b, q);
    lemma_h_frame(x_spec::<PauliProp>(b, q), q);
    lemma_frame_ext(v, PauliProp::h_spec(x_spec::<PauliProp>(b, q), q));
}

/// `my` on a Pauli frame: the outcome reports whether exactly one of the X and Z parts sits on `q`, it is deterministic and the frame is kept.
pub proof fn lemma_my_frame(v: Frame, q: usize, m: MeasurementResult, n: Frame)
    requires
        my_rel::<PauliProp>(v, q, m, n),
    ensures
        m.outcome == (v.0.contains(q) != v.1.contains(q)),
        m.is_deterministic,
        n == v,
{
    let a = sx_spec::<PauliProp>(v, q);
    lemma_sx_frame(v, q);
    lemma_sxdg_frame(a, q);
    lemma_frame_ext(v, sxdg_spec::<PauliProp>(a, q));
}

/// `mny` on a Pauli frame: the outcome reports whether exactly one of the X and Z parts sits on `q`, it is deterministic and the frame is kept.
pub proof fn lemma_mny_frame(v: Frame, q: usize, m: MeasurementResult, n: Frame)
    requires
        mny_rel::<PauliProp>(v, q, m, n),
    ensures
        m.outcome == (v.0.contains(q) != v.1.contains(q)),
        m.is_deterministic,
        n == v,
{
    let a = sxdg_spec::<PauliProp>(v, q);
    lemma_sxdg_frame(v, q);
    lemma_sx_frame(a, q);
    lemma_frame_ext(v, sx_spec::<PauliProp>(a, q));
}

/// `mnz` on a Pauli frame: the outcome reports the X part of `q`, it is deterministic and the frame is kept.
pub proof fn lemma_mnz_frame(v: Frame, q: usize, m: MeasurementResult, n: Frame)
    requires
        mnz_rel::<PauliProp>(v, q, m, n),
    ensures
        m.outcome == (v.0.contains(q)),
        m.is_deterministic,
        n == v,
{
    let a = x_spec::<PauliProp>(v, q);
    lemma_x_frame(v, q);
    lemma_x_frame(a, q);
    lemma_frame_ext(v, x_spec::<PauliProp>(a, q));
}

/// `mpx` on a Pauli frame: reports like `mx` and keeps the frame.
pub proof fn lemma_mpx_frame(v: Frame, q: usize, m: MeasurementResult, n: Frame)
    requires
        mpx_rel::<PauliProp>(v, q, m, n),
    ensures
        m.outcome == (v.1.contains(q)),
        m.is_deterministic,
        n == v,
{
    let mid = choose|mid: Frame| #[trigger] mx_rel::<PauliProp>(v, q, m, mid) && n == (if m.outcome {
        z_spec::<PauliProp>(mid, q)
    } else {
        mid
    });
    lemma_mx_frame(v, q, m, mid);
    lemma_paulis_keep_frame(mid, q);
}

/// `mpnx` on a Pauli frame: reports like `mnx` and keeps the frame.
pub proof fn lemma_mpnx_frame(v: Frame, q: usize, m: MeasurementResult, n: Frame)
    requires
        mpnx_rel::<PauliProp>(v, q, m, n),
    ensures
        m.outcome == (v.1.contains(q)),
        m.is_deterministic,
        n == v,
{
    let mid = choose|mid: Frame| #[trigger] mnx_rel::<PauliProp>(v, q, m, mid) && n == (if m.outcome {
        z_spec::<PauliProp>(mid, q)
    } else {
        mid
    });
    lemma_mnx_frame(v, q, m, mid);
    lemma_paulis_keep_frame(mid, q);
}

/// `mpy` on a Pauli frame: reports like `my` and keeps the frame.
pub proof fn lemma_mpy_frame(v: Frame, q: usize, m: MeasurementResult, n: Frame)
    requires
        mpy_rel::<PauliProp>(v, q, m, n),
    ensures
        m.outcome == (v.0.contains(q) != v.1.contains(q)),
        m.is_deterministic,
        n == v,
{
    let mid = choose|mid: Frame| #[trigger] my_rel::<PauliProp>(v, q, m, mid) && n == (if m.outcome {
        z_spec::<PauliProp>(mid, q)
    } else {
        mid
    });
    lemma_my_frame(v, q, m, mid);
    lemma_paulis_keep_frame(mid, q);
}

/// `mpny` on a Pauli frame: reports like `mny` and keeps the frame.
pub proof fn lemma_mpny_frame(v: Frame, q: usize, m: MeasurementResult, n: Frame)
    requires
        mpny_rel::<PauliProp>(v, q, m, n),
    ensures
        m.outcome == (v.0.contains(q) != v.1.contains(q)),
        m.is_deterministic,
        n == v,
{
    let mid = choose|mid: Frame| #[trigger] mny_rel::<PauliProp>(v, q, m, mid) && n == (if m.outcome {
        z_spec::<PauliProp>(mid, q)
    } else {
        mid
    });
    lemma_mny_frame(v, q, m, mid);
    lemma_paulis_keep_frame(mid, q);
}

/// `mpz` on a Pauli frame: reports like `mz` and keeps the frame.
pub proof fn lemma_mpz_frame(v: Frame, q: usize, m: MeasurementResult, n: Frame)
    requires
        mpz_rel::<PauliProp>(v, q, m, n),
    ensures
        m.outcome == (v.0.contains(q)),
        m.is_deterministic,
        n == v,
{
    let mid = choose|mid: Frame| #[trigger] PauliProp::mz_spec(v, q, m, mid) && n == (if m.outcome {
        x_spec::<PauliProp>(mid, q)
    } else {
        mid
    });
    lemma_mz_frame(v, q, m, mid);
    lemma_paulis_keep_frame(mid, q);
}

/// `mpnz` on a Pauli frame: reports like `mnz` and keeps the frame.
pub proof fn lemma_mpnz_frame(v: Frame, q: usize, m: MeasurementResult, n: Frame)
    requires
        mpnz_rel::<PauliProp>(v, q, m, n),
    ensures
        m.outcome == (v.0.contains(q)),
        m.is_deterministic,
        n == v,
{
    let mid = choose|mid: Frame| #[trigger] mnz_rel::<PauliProp>(v, q, m, mid) && n == (if m.outcome {
        x_spec::<PauliProp>(mid, q)
    } else {
        mid
    });
    lemma_mnz_frame(v, q, m, mid);
    lemma_paulis_keep_frame(mid, q);
}

/// `px` on a Pauli frame keeps the frame.
pub proof fn lemma_px_frame(v: Frame, q: usize, n: Frame)
    requires
        px_rel::<PauliProp>(v, q, n),
    ensures
        n == v,
{
    let m = choose|m: MeasurementResult| #[trigger] mpx_rel::<PauliProp>(v, q, m, n);
    lemma_mpx_frame(v, q, m, n);
}

/// `pnx` on a Pauli frame keeps the frame.
pub proof fn lemma_pnx_frame(v: Frame, q: usize, n: Frame)
    requires
        pnx_rel::<PauliProp>(v, q, n),
    ensures
        n == v,
{
    let m = choose|m: MeasurementResult| #[trigger] mpnx_rel::<PauliProp>(v, q, m, n);
    lemma_mpnx_frame(v, q, m, n);
}

/// `py` on a Pauli frame keeps the frame.
pub proof fn lemma_py_frame(v: Frame, q: usize, n: Frame)
    requires
        py_rel::<PauliProp>(v, q, n),
    ensures
        n == v,
{
    let m = choose|m: MeasurementResult| #[trigger] mpy_rel::<PauliProp>(v, q, m, n);
    lemma_mpy_frame(v, q, m, n);
}

/// `pny` on a Pauli frame keeps the frame.
pub proof fn lemma_pny_frame(v: Frame, q: usize, n: Frame)
    requires
        pny_rel::<PauliProp>(v, q, n),
    ensures
        n == v,
{
    let m = choose|m: MeasurementResult| #[trigger] mpny_rel::<PauliProp>(v, q, m, n);
    lemma_mpny_frame(v, q, m, n);
}

/// `pz` on a Pauli frame keeps the frame.
pub proof fn lemma_pz_frame(v: Frame, q: usize, n: Frame)
    requires
        pz_rel::<PauliProp>(v, q, n),
    ensures
        n == v,
{
    let m = choose|m: MeasurementResult| #[trigger] mpz_rel::<PauliProp>(v, q, m, n);
    lemma_mpz_frame(v, q, m, n);
}

/// `pnz` on a Pauli frame keeps the frame.
pub proof fn lemma_pnz_frame(v: Frame, q: usize, n: Frame)
    requires
        pnz_rel::<PauliProp>(v, q, n),
    ensures
        n == v,
{
    let m = choose|m: MeasurementResult| #[trigger] mpnz_rel::<PauliProp>(v, q, m, n);
    lemma_mpnz_frame(v, q, m, n);
}

} // verus!
