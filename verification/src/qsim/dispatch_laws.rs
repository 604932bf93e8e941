use super::clifford_gateable::{
    cy_spec, cz_spec, f2_spec, f2dg_spec, f3_spec, f3dg_spec, f4_spec, f4dg_spec, f_spec,
    fdg_spec, g_spec, h2_spec, h3_spec, h4_spec, h5_spec, h6_spec, swap_spec, sx_spec,
    sxdg_spec, sxx_spec, sxxdg_spec, sy_spec, sydg_spec, syy_spec, syydg_spec, szdg_spec,
    szz_spec, szzdg_spec, x_spec, y_spec, z_spec, CliffordModel,
};
use super::gate_dispatch::{one_qubit_unitary, two_qubit_gate};
use super::pauli_prop::{Frame, PauliProp};
use super::pauli_prop_laws::{
    acts1, acts2, lemma_cx_frame, lemma_cy_frame, lemma_cz_frame, lemma_f2_frame,
    lemma_f2dg_frame, lemma_f3_frame, lemma_f3dg_frame, lemma_f4_frame, lemma_f4dg_frame,
    lemma_f_frame, lemma_fdg_frame, lemma_g_frame, lemma_h2_frame, lemma_h3_frame,
    lemma_h4_frame, lemma_h5_frame, lemma_h6_frame, lemma_h_frame, lemma_swap_frame,
    lemma_sx_frame, lemma_sxdg_frame, lemma_sxx_frame, lemma_sxxdg_frame, lemma_sy_frame,
    lemma_sydg_frame, lemma_syy_frame, lemma_syydg_frame, lemma_sz_frame, lemma_szdg_frame,
    lemma_szz_frame, lemma_szzdg_frame, lemma_x_frame, lemma_y_frame, lemma_z_frame, pauli_i,
    pauli_x, pauli_y, pauli_z,
};
use vstd::prelude::*;

verus! {

/// What each named two-qubit gate does to a Pauli frame, as `run_2q_gate` applies it to
/// qubits `a` and `b` (first and second): the name picks the operation whose images of XI, IX,
/// ZI and IZ are those listed (signs are not tracked). For instance `CX` maps XI to XX
/// (the first qubit controls), `CY` maps XI to XY, and `CZ` maps XI to XZ and IX to ZX.
pub proof fn lemma_two_qubit_gates_by_name(v: Frame, a: usize, b: usize)
    requires
        a != b,
    ensures
        two_qubit_gate::<PauliProp>("CX"@, v, a, b) matches Some(w) && acts2(
            v,
            w,
            a,
            b,
            (pauli_x(), pauli_x()), (pauli_i(), pauli_x()), (pauli_z(), pauli_i()), (pauli_z(), pauli_z()),
        ),
        two_qubit_gate::<PauliProp>("CY"@, v, a, b) matches Some(w) && acts2(
            v,
            w,
            a,
            b,
            (pauli_x(), pauli_y()), (pauli_z(), pauli_x()), (pauli_z(), pauli_i()), (pauli_z(), pauli_z()),
        ),
        two_qubit_gate::<PauliProp>("CZ"@, v, a, b) matches Some(w) && acts2(
            v,
            w,
            a,
            b,
            (pauli_x(), pauli_z()), (pauli_z(), pauli_x()), (pauli_z(), pauli_i()), (pauli_i(), pauli_z()),
        ),
        two_qubit_gate::<PauliProp>("SXX"@, v, a, b) matches Some(w) && acts2(
            v,
            w,
            a,
            b,
            (pauli_x(), pauli_i()), (pauli_i(), pauli_x()), (pauli_y(), pauli_x()), (pauli_x(), pauli_y()),
        ),
        two_qubit_gate::<PauliProp>("SXXdg"@, v, a, b) matches Some(w) && acts2(
            v,
            w,
            a,
            b,
            (pauli_x(), pauli_i()), (pauli_i(), pauli_x()), (pauli_y(), pauli_x()), (pauli_x(), pauli_y()),
        ),
        two_qubit_gate::<PauliProp>("SYY"@, v, a, b) matches Some(w) && acts2(
            v,
            w,
            a,
            b,
            (pauli_z(), pauli_y()), (pauli_y(), pauli_z()), (pauli_x(), pauli_y()), (pauli_y(), pauli_x()),
        ),
        two_qubit_gate::<PauliProp>("SYYdg"@, v, a, b) matches Some(w) && acts2(
            v,
            w,
            a,
            b,
            (pauli_z(), pauli_y()), (pauli_y(), pauli_z()), (pauli_x(), pauli_y()), (pauli_y(), pauli_x()),
        ),
        two_qubit_gate::<PauliProp>("SZZ"@, v, a, b) matches Some(w) && acts2(
            v,
            w,
            a,
            b,
            (pauli_y(), pauli_z()), (pauli_z(), pauli_y()), (pauli_z(), pauli_i()), (pauli_i(), pauli_z()),
        ),
        two_qubit_gate::<PauliProp>("SZZdg"@, v, a, b) matches Some(w) && acts2(
            v,
            w,
            a,
            b,
            (pauli_y(), pauli_z()), (pauli_z(), pauli_y()), (pauli_z(), pauli_i()), (pauli_i(), pauli_z()),
        ),
        two_qubit_gate::<PauliProp>("SWAP"@, v, a, b) matches Some(w) && acts2(
            v,
            w,
            a,
            b,
            (pauli_i(), pauli_x()), (pauli_x(), pauli_i()), (pauli_i(), pauli_z()), (pauli_z(), pauli_i()),
        ),
        two_qubit_gate::<PauliProp>("G2"@, v, a, b) matches Some(w) && acts2(
            v,
            w,
            a,
            b,
            (pauli_i(), pauli_x()), (pauli_x(), pauli_i()), (pauli_x(), pauli_z()), (pauli_z(), pauli_x()),
        ),
{
    reveal_strlit("CX");
    reveal_strlit("CY");
    reveal_strlit("CZ");
    reveal_strlit("SXX");
    reveal_strlit("SXXdg");
    reveal_strlit("SYY");
    reveal_strlit("SYYdg");
    reveal_strlit("SZZ");
    reveal_strlit("SZZdg");
    reveal_strlit("SWAP");
    reveal_strlit("G2");
    assert("CY"@ != "CX"@) by {
        assert("CY"@[1] != "CX"@[1]);
    }
    assert("CZ"@ != "CX"@) by {
        assert("CZ"@[1] != "CX"@[1]);
    }
    assert("CZ"@ != "CY"@) by {
        assert("CZ"@[1] != "CY"@[1]);
    }
    assert("SYY"@ != "SXX"@) by {
        assert("SYY"@[1] != "SXX"@[1]);
    }
    assert("SYYdg"@ != "SXXdg"@) by {
        assert("SYYdg"@[1] != "SXXdg"@[1]);
    }
    assert("SZZ"@ != "SXX"@) by {
        assert("SZZ"@[1] != "SXX"@[1]);
    }
    assert("SZZ"@ != "SYY"@) by {
        assert("SZZ"@[1] != "SYY"@[1]);
    }
    assert("SZZdg"@ != "SXXdg"@) by {
        assert("SZZdg"@[1] != "SXXdg"@[1]);
    }
    assert("SZZdg"@ != "SYYdg"@) by {
        assert("SZZdg"@[1] != "SYYdg"@[1]);
    }
    assert("G2"@ != "CX"@) by {
        assert("G2"@[0] != "CX"@[0]);
    }
    assert("G2"@ != "CY"@) by {
        assert("G2"@[0] != "CY"@[0]);
    }
    assert("G2"@ != "CZ"@) by {
        assert("G2"@[0] != "CZ"@[0]);
    }
    assert("CX"@.len() == 2);
    assert("CY"@.len() == 2);
    assert("CZ"@.len() == 2);
    assert("SXX"@.len() == 3);
    assert("SXXdg"@.len() == 5);
    assert("SYY"@.len() == 3);
    assert("SYYdg"@.len() == 5);
    assert("SZZ"@.len() == 3);
    assert("SZZdg"@.len() == 5);
    assert("SWAP"@.len() == 4);
    assert("G2"@.len() == 2);
    lemma_cx_frame(v, a, b);
    lemma_cy_frame(v, a, b);
    lemma_cz_frame(v, a, b);
    lemma_sxx_frame(v, a, b);
    lemma_sxxdg_frame(v, a, b);
    lemma_syy_frame(v, a, b);
    lemma_syydg_frame(v, a, b);
    lemma_szz_frame(v, a, b);
    lemma_szzdg_frame(v, a, b);
    lemma_swap_frame(v, a, b);
    lemma_g_frame(v, a, b);
}

/// What each named one-qubit unitary does to a Pauli frame, as `run_1q_gate` applies it
/// to qubit `q`: the name picks the operation with the listed images of X and Z (signs are not
/// tracked); for instance `H` exchanges X and Z, and `SZ` maps X to Y.
pub proof fn lemma_one_qubit_gates_by_name(v: Frame, q: usize)
    ensures
        one_qubit_unitary::<PauliProp>("X"@, v, q) matches Some(w) && acts1(v, w, q, pauli_x(), pauli_z()),
        one_qubit_unitary::<PauliProp>("Y"@, v, q) matches Some(w) && acts1(v, w, q, pauli_x(), pauli_z()),
        one_qubit_unitary::<PauliProp>("Z"@, v, q) matches Some(w) && acts1(v, w, q, pauli_x(), pauli_z()),
        one_qubit_unitary::<PauliProp>("H"@, v, q) matches Some(w) && acts1(v, w, q, pauli_z(), pauli_x()),
        one_qubit_unitary::<PauliProp>("H2"@, v, q) matches Some(w) && acts1(v, w, q, pauli_z(), pauli_x()),
        one_qubit_unitary::<PauliProp>("H3"@, v, q) matches Some(w) && acts1(v, w, q, pauli_y(), pauli_z()),
        one_qubit_unitary::<PauliProp>("H4"@, v, q) matches Some(w) && acts1(v, w, q, pauli_y(), pauli_z()),
        one_qubit_unitary::<PauliProp>("H5"@, v, q) matches Some(w) && acts1(v, w, q, pauli_x(), pauli_y()),
        one_qubit_unitary::<PauliProp>("H6"@, v, q) matches Some(w) && acts1(v, w, q, pauli_x(), pauli_y()),
        one_qubit_unitary::<PauliProp>("F"@, v, q) matches Some(w) && acts1(v, w, q, pauli_y(), pauli_x()),
        one_qubit_unitary::<PauliProp>("Fdg"@, v, q) matches Some(w) && acts1(v, w, q, pauli_z(), pauli_y()),
        one_qubit_unitary::<PauliProp>("F2"@, v, q) matches Some(w) && acts1(v, w, q, pauli_z(), pauli_y()),
        one_qubit_unitary::<PauliProp>("F2dg"@, v, q) matches Some(w) && acts1(v, w, q, pauli_y(), pauli_x()),
        one_qubit_unitary::<PauliProp>("F3"@, v, q) matches Some(w) && acts1(v, w, q, pauli_y(), pauli_x()),
        one_qubit_unitary::<PauliProp>("F3dg"@, v, q) matches Some(w) && acts1(v, w, q, pauli_z(), pauli_y()),
        one_qubit_unitary::<PauliProp>("F4"@, v, q) matches Some(w) && acts1(v, w, q, pauli_z(), pauli_y()),
        one_qubit_unitary::<PauliProp>("F4dg"@, v, q) matches Some(w) && acts1(v, w, q, pauli_y(), pauli_x()),
        one_qubit_unitary::<PauliProp>("SX"@, v, q) matches Some(w) && acts1(v, w, q, pauli_x(), pauli_y()),
        one_qubit_unitary::<PauliProp>("SXdg"@, v, q) matches Some(w) && acts1(v, w, q, pauli_x(), pauli_y()),
        one_qubit_unitary::<PauliProp>("SY"@, v, q) matches Some(w) && acts1(v, w, q, pauli_z(), pauli_x()),
        one_qubit_unitary::<PauliProp>("SYdg"@, v, q) matches Some(w) && acts1(v, w, q, pauli_z(), pauli_x()),
        one_qubit_unitary::<PauliProp>("SZ"@, v, q) matches Some(w) && acts1(v, w, q, pauli_y(), pauli_z()),
        one_qubit_unitary::<PauliProp>("SZdg"@, v, q) matches Some(w) && acts1(v, w, q, pauli_y(), pauli_z()),
{
    reveal_strlit("X");
    reveal_strlit("Y");
    reveal_strlit("Z");
    reveal_strlit("H");
    reveal_strlit("H2");
    reveal_strlit("H3");
    reveal_strlit("H4");
    reveal_strlit("H5");
    reveal_strlit("H6");
    reveal_strlit("F");
    reveal_strlit("Fdg");
    reveal_strlit("F2");
    reveal_strlit("F2dg");
    reveal_strlit("F3");
    reveal_strlit("F3dg");
    reveal_strlit("F4");
    reveal_strlit("F4dg");
    reveal_strlit("SX");
    reveal_strlit("SXdg");
    reveal_strlit("SY");
    reveal_strlit("SYdg");
    reveal_strlit("SZ");
    reveal_strlit("SZdg");
    assert("Y"@ != "X"@) by {
        assert("Y"@[0] != "X"@[0]);
    }
    assert("Z"@ != "X"@) by {
        assert("Z"@[0] != "X"@[0]);
    }
    assert("Z"@ != "Y"@) by {
        assert("Z"@[0] != "Y"@[0]);
    }
    assert("H"@ != "X"@) by {
        assert("H"@[0] != "X"@[0]);
    }
    assert("H"@ != "Y"@) by {
        assert("H"@[0] != "Y"@[0]);
    }
    assert("H"@ != "Z"@) by {
        assert("H"@[0] != "Z"@[0]);
    }
    assert("H3"@ != "H2"@) by {
        assert("H3"@[1] != "H2"@[1]);
    }
    assert("H4"@ != "H2"@) by {
        assert("H4"@[1] != "H2"@[1]);
    }
    assert("H4"@ != "H3"@) by {
        assert("H4"@[1] != "H3"@[1]);
    }
    assert("H5"@ != "H2"@) by {
        assert("H5"@[1] != "H2"@[1]);
    }
    assert("H5"@ != "H3"@) by {
        assert("H5"@[1] != "H3"@[1]);
    }
    assert("H5"@ != "H4"@) by {
        assert("H5"@[1] != "H4"@[1]);
    }
    assert("H6"@ != "H2"@) by {
        assert("H6"@[1] != "H2"@[1]);
    }
    assert("H6"@ != "H3"@) by {
        assert("H6"@[1] != "H3"@[1]);
    }
    assert("H6"@ != "H4"@) by {
        assert("H6"@[1] != "H4"@[1]);
    }
    assert("H6"@ != "H5"@) by {
        assert("H6"@[1] != "H5"@[1]);
    }
    assert("F"@ != "X"@) by {
        assert("F"@[0] != "X"@[0]);
    }
    assert("F"@ != "Y"@) by {
        assert("F"@[0] != "Y"@[0]);
    }
    assert("F"@ != "Z"@) by {
        assert("F"@[0] != "Z"@[0]);
    }
    assert("F"@ != "H"@) by {
        assert("F"@[0] != "H"@[0]);
    }
    assert("F2"@ != "H2"@) by {
        assert("F2"@[0] != "H2"@[0]);
    }
    assert("F2"@ != "H3"@) by {
        assert("F2"@[0] != "H3"@[0]);
    }
    assert("F2"@ != "H4"@) by {
        assert("F2"@[0] != "H4"@[0]);
    }
    assert("F2"@ != "H5"@) by {
        assert("F2"@[0] != "H5"@[0]);
    }
    assert("F2"@ != "H6"@) by {
        assert("F2"@[0] != "H6"@[0]);
    }
    assert("F3"@ != "H2"@) by {
        assert("F3"@[0] != "H2"@[0]);
    }
    assert("F3"@ != "H3"@) by {
        assert("F3"@[0] != "H3"@[0]);
    }
    assert("F3"@ != "H4"@) by {
        assert("F3"@[0] != "H4"@[0]);
    }
    assert("F3"@ != "H5"@) by {
        assert("F3"@[0] != "H5"@[0]);
    }
    assert("F3"@ != "H6"@) by {
        assert("F3"@[0] != "H6"@[0]);
    }
    assert("F3"@ != "F2"@) by {
        assert("F3"@[1] != "F2"@[1]);
    }
    assert("F3dg"@ != "F2dg"@) by {
        assert("F3dg"@[1] != "F2dg"@[1]);
    }
    assert("F4"@ != "H2"@) by {
        assert("F4"@[0] != "H2"@[0]);
    }
    assert("F4"@ != "H3"@) by {
        assert("F4"@[0] != "H3"@[0]);
    }
    assert("F4"@ != "H4"@) by {
        assert("F4"@[0] != "H4"@[0]);
    }
    assert("F4"@ != "H5"@) by {
        assert("F4"@[0] != "H5"@[0]);
    }
    assert("F4"@ != "H6"@) by {
        assert("F4"@[0] != "H6"@[0]);
    }
    assert("F4"@ != "F2"@) by {
        assert("F4"@[1] != "F2"@[1]);
    }
    assert("F4"@ != "F3"@) by {
        assert("F4"@[1] != "F3"@[1]);
    }
    assert("F4dg"@ != "F2dg"@) by {
        assert("F4dg"@[1] != "F2dg"@[1]);
    }
    assert("F4dg"@ != "F3dg"@) by {
        assert("F4dg"@[1] != "F3dg"@[1]);
    }
    assert("SX"@ != "H2"@) by {
        assert("SX"@[0] != "H2"@[0]);
    }
    assert("SX"@ != "H3"@) by {
        assert("SX"@[0] != "H3"@[0]);
    }
    assert("SX"@ != "H4"@) by {
        assert("SX"@[0] != "H4"@[0]);
    }
    assert("SX"@ != "H5"@) by {
        assert("SX"@[0] != "H5"@[0]);
    }
    assert("SX"@ != "H6"@) by {
        assert("SX"@[0] != "H6"@[0]);
    }
    assert("SX"@ != "F2"@) by {
        assert("SX"@[0] != "F2"@[0]);
    }
    assert("SX"@ != "F3"@) by {
        assert("SX"@[0] != "F3"@[0]);
    }
    assert("SX"@ != "F4"@) by {
        assert("SX"@[0] != "F4"@[0]);
    }
    assert("SXdg"@ != "F2dg"@) by {
        assert("SXdg"@[0] != "F2dg"@[0]);
    }
    assert("SXdg"@ != "F3dg"@) by {
        assert("SXdg"@[0] != "F3dg"@[0]);
    }
    assert("SXdg"@ != "F4dg"@) by {
        assert("SXdg"@[0] != "F4dg"@[0]);
    }
    assert("SY"@ != "H2"@) by {
        assert("SY"@[0] != "H2"@[0]);
    }
    assert("SY"@ != "H3"@) by {
        assert("SY"@[0] != "H3"@[0]);
    }
    assert("SY"@ != "H4"@) by {
        assert("SY"@[0] != "H4"@[0]);
    }
    assert("SY"@ != "H5"@) by {
        assert("SY"@[0] != "H5"@[0]);
    }
    assert("SY"@ != "H6"@) by {
        assert("SY"@[0] != "H6"@[0]);
    }
    assert("SY"@ != "F2"@) by {
        assert("SY"@[0] != "F2"@[0]);
    }
    assert("SY"@ != "F3"@) by {
        assert("SY"@[0] != "F3"@[0]);
    }
    assert("SY"@ != "F4"@) by {
        assert("SY"@[0] != "F4"@[0]);
    }
    assert("SY"@ != "SX"@) by {
        assert("SY"@[1] != "SX"@[1]);
    }
    assert("SYdg"@ != "F2dg"@) by {
        assert("SYdg"@[0] != "F2dg"@[0]);
    }
    assert("SYdg"@ != "F3dg"@) by {
        assert("SYdg"@[0] != "F3dg"@[0]);
    }
    assert("SYdg"@ != "F4dg"@) by {
        assert("SYdg"@[0] != "F4dg"@[0]);
    }
    assert("SYdg"@ != "SXdg"@) by {
        assert("SYdg"@[1] != "SXdg"@[1]);
    }
    assert("SZ"@ != "H2"@) by {
        assert("SZ"@[0] != "H2"@[0]);
    }
    assert("SZ"@ != "H3"@) by {
        assert("SZ"@[0] != "H3"@[0]);
    }
    assert("SZ"@ != "H4"@) by {
        assert("SZ"@[0] != "H4"@[0]);
    }
    assert("SZ"@ != "H5"@) by {
        assert("SZ"@[0] != "H5"@[0]);
    }
    assert("SZ"@ != "H6"@) by {
        assert("SZ"@[0] != "H6"@[0]);
    }
    assert("SZ"@ != "F2"@) by {
        assert("SZ"@[0] != "F2"@[0]);
    }
    assert("SZ"@ != "F3"@) by {
        assert("SZ"@[0] != "F3"@[0]);
    }
    assert("SZ"@ != "F4"@) by {
        assert("SZ"@[0] != "F4"@[0]);
    }
    assert("SZ"@ != "SX"@) by {
        assert("SZ"@[1] != "SX"@[1]);
    }
    assert("SZ"@ != "SY"@) by {
        assert("SZ"@[1] != "SY"@[1]);
    }
    assert("SZdg"@ != "F2dg"@) by {
        assert("SZdg"@[0] != "F2dg"@[0]);
    }
    assert("SZdg"@ != "F3dg"@) by {
        assert("SZdg"@[0] != "F3dg"@[0]);
    }
    assert("SZdg"@ != "F4dg"@) by {
        assert("SZdg"@[0] != "F4dg"@[0]);
    }
    assert("SZdg"@ != "SXdg"@) by {
        assert("SZdg"@[1] != "SXdg"@[1]);
    }
    assert("SZdg"@ != "SYdg"@) by {
        assert("SZdg"@[1] != "SYdg"@[1]);
    }
    assert("X"@.len() == 1);
    assert("Y"@.len() == 1);
    assert("Z"@.len() == 1);
    assert("H"@.len() == 1);
    assert("H2"@.len() == 2);
    assert("H3"@.len() == 2);
    assert("H4"@.len() == 2);
    assert("H5"@.len() == 2);
    assert("H6"@.len() == 2);
    assert("F"@.len() == 1);
    assert("Fdg"@.len() == 3);
    assert("F2"@.len() == 2);
    assert("F2dg"@.len() == 4);
    assert("F3"@.len() == 2);
    assert("F3dg"@.len() == 4);
    assert("F4"@.len() == 2);
    assert("F4dg"@.len() == 4);
    assert("SX"@.len() == 2);
    assert("SXdg"@.len() == 4);
    assert("SY"@.len() == 2);
    assert("SYdg"@.len() == 4);
    assert("SZ"@.len() == 2);
    assert("SZdg"@.len() == 4);
    lemma_x_frame(v, q);
    lemma_y_frame(v, q);
    lemma_z_frame(v, q);
    lemma_h_frame(v, q);
    lemma_h2_frame(v, q);
    lemma_h3_frame(v, q);
    lemma_h4_frame(v, q);
    lemma_h5_frame(v, q);
    lemma_h6_frame(v, q);
    lemma_f_frame(v, q);
    lemma_fdg_frame(v, q);
    lemma_f2_frame(v, q);
    lemma_f2dg_frame(v, q);
    lemma_f3_frame(v, q);
    lemma_f3dg_frame(v, q);
    lemma_f4_frame(v, q);
    lemma_f4dg_frame(v, q);
    lemma_sx_frame(v, q);
    lemma_sxdg_frame(v, q);
    lemma_sy_frame(v, q);
    lemma_sydg_frame(v, q);
    lemma_sz_frame(v, q);
    lemma_szdg_frame(v, q);
}

} // verus!
