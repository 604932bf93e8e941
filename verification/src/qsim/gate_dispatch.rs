use super::clifford_gateable::{
    cy_spec, cz_spec, f2_spec, f2dg_spec, f3_spec, f3dg_spec, f4_spec, f4dg_spec, f_spec,
    fdg_spec, g_spec, h2_spec, h3_spec, h4_spec, h5_spec, h6_spec, mx_rel, my_rel, pnx_rel,
    pny_rel, pnz_rel, px_rel, py_rel, pz_rel, swap_spec, sx_spec, sxdg_spec, sxx_spec,
    sxxdg_spec, sy_spec, sydg_spec, syy_spec, syydg_spec, szdg_spec, szz_spec, szzdg_spec,
    x_spec, y_spec, z_spec, CliffordGateable, CliffordModel, MeasurementResult,
};
use crate::text::chars_of;
use crate::text_map::chars_equal;
use crate::types::result_text;
use vstd::prelude::*;

verus! {

/// The state after the one-qubit unitary named `symbol` on qubit `q`, where `symbol`
/// names one.
pub open spec fn one_qubit_unitary<S: CliffordModel>(symbol: Seq<char>, v: S::V, q: usize) -> Option<
    S::V,
> {
    if symbol == "X"@ {
        Some(x_spec::<S>(v, q))
    } else if symbol == "Y"@ {
        Some(y_spec::<S>(v, q))
    } else if symbol == "Z"@ {
        Some(z_spec::<S>(v, q))
    } else if symbol == "H"@ {
        Some(S::h_spec(v, q))
    } else if symbol == "H2"@ {
        Some(h2_spec::<S>(v, q))
    } else if symbol == "H3"@ {
        Some(h3_spec::<S>(v, q))
    } else if symbol == "H4"@ {
        Some(h4_spec::<S>(v, q))
    } else if symbol == "H5"@ {
        Some(h5_spec::<S>(v, q))
    } else if symbol == "H6"@ {
        Some(h6_spec::<S>(v, q))
    } else if symbol == "F"@ {
        Some(f_spec::<S>(v, q))
    } else if symbol == "Fdg"@ {
        Some(fdg_spec::<S>(v, q))
    } else if symbol == "F2"@ {
        Some(f2_spec::<S>(v, q))
    } else if symbol == "F2dg"@ {
        Some(f2dg_spec::<S>(v, q))
    } else if symbol == "F3"@ {
        Some(f3_spec::<S>(v, q))
    } else if symbol == "F3dg"@ {
        Some(f3dg_spec::<S>(v, q))
    } else if symbol == "F4"@ {
        Some(f4_spec::<S>(v, q))
    } else if symbol == "F4dg"@ {
        Some(f4dg_spec::<S>(v, q))
    } else if symbol == "SX"@ {
        Some(sx_spec::<S>(v, q))
    } else if symbol == "SXdg"@ {
        Some(sxdg_spec::<S>(v, q))
    } else if symbol == "SY"@ {
        Some(sy_spec::<S>(v, q))
    } else if symbol == "SYdg"@ {
        Some(sydg_spec::<S>(v, q))
    } else if symbol == "SZ"@ {
        Some(S::sz_spec(v, q))
    } else if symbol == "SZdg"@ {
        Some(szdg_spec::<S>(v, q))
    } else {
        None
    }
}

/// Whether `next` may follow the preparation named `symbol` on qubit `q` of state `v`;
/// `None` where `symbol` names no preparation.
pub open spec fn one_qubit_prep<S: CliffordModel>(
    symbol: Seq<char>,
    v: S::V,
    q: usize,
    next: S::V,
) -> Option<bool> {
    if symbol == "PZ"@ {
        Some(pz_rel::<S>(v, q, next))
    } else if symbol == "PX"@ {
        Some(px_rel::<S>(v, q, next))
    } else if symbol == "PY"@ {
        Some(py_rel::<S>(v, q, next))
    } else if symbol == "PnZ"@ {
        Some(pnz_rel::<S>(v, q, next))
    } else if symbol == "PnX"@ {
        Some(pnx_rel::<S>(v, q, next))
    } else if symbol == "PnY"@ {
        Some(pny_rel::<S>(v, q, next))
    } else {
        None
    }
}

/// Whether the measurement named `symbol` of qubit `q` in state `v` may give `m` and
/// leave `next`; `None` where `symbol` names no measurement.
pub open spec fn one_qubit_measurement<S: CliffordModel>(
    symbol: Seq<char>,
    v: S::V,
    q: usize,
    m: MeasurementResult,
    next: S::V,
) -> Option<bool> {
    if symbol == "MZ"@ {
        Some(S::mz_spec(v, q, m, next))
    } else if symbol == "MX"@ {
        Some(mx_rel::<S>(v, q, m, next))
    } else if symbol == "MY"@ {
        Some(my_rel::<S>(v, q, m, next))
    } else {
        None
    }
}

/// The state after the two-qubit gate named `symbol` on qubits `a` and `b`, where
/// `symbol` names one.
pub open spec fn two_qubit_gate<S: CliffordModel>(symbol: Seq<char>, v: S::V, a: usize, b: usize) -> Option<
    S::V,
> {
    if symbol == "CX"@ {
        Some(S::cx_spec(v, a, b))
    } else if symbol == "CY"@ {
        Some(cy_spec::<S>(v, a, b))
    } else if symbol == "CZ"@ {
        Some(cz_spec::<S>(v, a, b))
    } else if symbol == "SXX"@ {
        Some(sxx_spec::<S>(v, a, b))
    } else if symbol == "SXXdg"@ {
        Some(sxxdg_spec::<S>(v, a, b))
    } else if symbol == "SYY"@ {
        Some(syy_spec::<S>(v, a, b))
    } else if symbol == "SYYdg"@ {
        Some(syydg_spec::<S>(v, a, b))
    } else if symbol == "SZZ"@ {
        Some(szz_spec::<S>(v, a, b))
    } else if symbol == "SZZdg"@ {
        Some(szzdg_spec::<S>(v, a, b))
    } else if symbol == "SWAP"@ {
        Some(swap_spec::<S>(v, a, b))
    } else if symbol == "G2"@ {
        Some(g_spec::<S>(v, a, b))
    } else {
        None
    }
}

/// The outcome of a measurement as a bit.
pub open spec fn outcome_u8(m: MeasurementResult) -> u8 {
    if m.outcome {
        1
    } else {
        0
    }
}

/// What the one-qubit operation named `symbol` does to qubit `q` of state `v`: `next`
/// is a state it may leave and `r` what it gives (an outcome bit for measurements, an
/// error for unknown names).
pub open spec fn one_qubit_step<S: CliffordModel>(
    symbol: Seq<char>,
    v: S::V,
    q: usize,
    next: S::V,
    r: Result<Option<u8>, Seq<char>>,
) -> bool {
    match one_qubit_unitary::<S>(symbol, v, q) {
        Some(n) => r == Ok::<Option<u8>, Seq<char>>(None) && next == n,
        None => match one_qubit_prep::<S>(symbol, v, q, next) {
            Some(ok) => r == Ok::<Option<u8>, Seq<char>>(None) && ok,
            None => if symbol == "MZ"@ || symbol == "MX"@ || symbol == "MY"@ {
                exists|m: MeasurementResult|
                    #[trigger] one_qubit_measurement::<S>(symbol, v, q, m, next) == Some(true) && r
                        == Ok::<Option<u8>, Seq<char>>(Some(outcome_u8(m)))
            } else {
                next == v && r == Err::<Option<u8>, Seq<char>>("Unsupported single-qubit gate"@)
            },
        },
    }
}

/// What the two-qubit gate named `symbol` does to the qubits `location` of state `v`.
pub open spec fn two_qubit_step<S: CliffordModel>(
    symbol: Seq<char>,
    v: S::V,
    location: Seq<usize>,
    next: S::V,
    r: Result<Option<u8>, Seq<char>>,
) -> bool {
    if location.len() != 2 {
        next == v && r == Err::<Option<u8>, Seq<char>>(
            "Two-qubit gate requires exactly 2 qubit locations"@,
        )
    } else {
        match two_qubit_gate::<S>(symbol, v, location[0], location[1]) {
            Some(n) => r == Ok::<Option<u8>, Seq<char>>(None) && next == n,
            None => next == v && r == Err::<Option<u8>, Seq<char>>("Unsupported two-qubit gate"@),
        }
    }
}

/// Whether the characters of `v` are the text `lit`.
fn is_text(v: &Vec<char>, lit: &str) -> (b: bool)
    ensures
        b == (v@ == lit@),
{
    let w = chars_of(lit);
    chars_equal(v, &w)
}

/// Applies the one-qubit operation named `symbol` to qubit `location`: a Clifford gate
/// (`X`, `Y`, `Z`, `H`, `H2`-`H6`, `F`, `F2`-`F4` and their adjoints `..dg`, `SX`, `SY`,
/// `SZ` and their adjoints), a preparation (`PZ`, `PX`, `PY`, `PnZ`, `PnX`, `PnY`) or a
/// measurement (`MZ`, `MX`, `MY`, which gives the outcome bit); another name is refused
/// (see `one_qubit_step`).
pub fn run_1q_gate<S: CliffordGateable>(sim: &mut S, symbol: &str, location: usize) -> (r: Result<
    Option<u8>,
    String,
>)
    ensures
        one_qubit_step::<S>(symbol@, old(sim)@, location, final(sim)@, result_text(r)),
{
    let s = chars_of(symbol);
    if is_text(&s, "X") {
        sim.x(location);
        Ok(None)
    } else if is_text(&s, "Y") {
        sim.y(location);
        Ok(None)
    } else if is_text(&s, "Z") {
        sim.z(location);
        Ok(None)
    } else if is_text(&s, "H") {
        sim.h(location);
        Ok(None)
    } else if is_text(&s, "H2") {
        sim.h2(location);
        Ok(None)
    } else if is_text(&s, "H3") {
        sim.h3(location);
        Ok(None)
    } else if is_text(&s, "H4") {
        sim.h4(location);
        Ok(None)
    } else if is_text(&s, "H5") {
        sim.h5(location);
        Ok(None)
    } else if is_text(&s, "H6") {
        sim.h6(location);
        Ok(None)
    } else if is_text(&s, "F") {
        sim.f(location);
        Ok(None)
    } else if is_text(&s, "Fdg") {
        sim.fdg(location);
        Ok(None)
    } else if is_text(&s, "F2") {
        sim.f2(location);
        Ok(None)
    } else if is_text(&s, "F2dg") {
        sim.f2dg(location);
        Ok(None)
    } else if is_text(&s, "F3") {
        sim.f3(location);
        Ok(None)
    } else if is_text(&s, "F3dg") {
        sim.f3dg(location);
        Ok(None)
    } else if is_text(&s, "F4") {
        sim.f4(location);
        Ok(None)
    } else if is_text(&s, "F4dg") {
        sim.f4dg(location);
        Ok(None)
    } else if is_text(&s, "SX") {
        sim.sx(location);
        Ok(None)
    } else if is_text(&s, "SXdg") {
        sim.sxdg(location);
        Ok(None)
    } else if is_text(&s, "SY") {
        sim.sy(location);
        Ok(None)
    } else if is_text(&s, "SYdg") {
        sim.sydg(location);
        Ok(None)
    } else if is_text(&s, "SZ") {
        sim.sz(location);
        Ok(None)
    } else if is_text(&s, "SZdg") {
        sim.szdg(location);
        Ok(None)
    } else if is_text(&s, "PZ") {
        sim.pz(location);
        Ok(None)
    } else if is_text(&s, "PX") {
        sim.px(location);
        Ok(None)
    } else if is_text(&s, "PY") {
        sim.py(location);
        Ok(None)
    } else if is_text(&s, "PnZ") {
        sim.pnz(location);
        Ok(None)
    } else if is_text(&s, "PnX") {
        sim.pnx(location);
        Ok(None)
    } else if is_text(&s, "PnY") {
        sim.pny(location);
        Ok(None)
    } else if is_text(&s, "MZ") {
        let m = sim.mz(location);
        let bit: u8 = if m.outcome {
            1
        } else {
            0
        };
        proof {
            assert(one_qubit_measurement::<S>(symbol@, old(sim)@, location, m, sim@) == Some(true));
        }
        Ok(Some(bit))
    } else if is_text(&s, "MX") {
        let m = sim.mx(location);
        let bit: u8 = if m.outcome {
            1
        } else {
            0
        };
        proof {
            assert(one_qubit_measurement::<S>(symbol@, old(sim)@, location, m, sim@) == Some(true));
        }
        Ok(Some(bit))
    } else if is_text(&s, "MY") {
        let m = sim.my(location);
        let bit: u8 = if m.outcome {
            1
        } else {
            0
        };
        proof {
            assert(one_qubit_measurement::<S>(symbol@, old(sim)@, location, m, sim@) == Some(true));
        }
        Ok(Some(bit))
    } else {
        Err("Unsupported single-qubit gate".to_string())
    }
}

/// Applies the two-qubit gate named `symbol` to the qubits `location[0]` and
/// `location[1]` (`CX`, `CY`, `CZ`, `SXX`, `SYY`, `SZZ` and their adjoints `..dg`, `SWAP`,
/// `G2`); refuses another number of qubits, then another name (see `two_qubit_step`).
pub fn run_2q_gate<S: CliffordGateable>(sim: &mut S, symbol: &str, location: &[usize]) -> (r: Result<
    Option<u8>,
    String,
>)
    ensures
        two_qubit_step::<S>(symbol@, old(sim)@, location@, final(sim)@, result_text(r)),
{
    if location.len() != 2 {
        return Err("Two-qubit gate requires exactly 2 qubit locations".to_string());
    }
    let q1 = location[0];
    let q2 = location[1];
    let s = chars_of(symbol);
    if is_text(&s, "CX") {
        sim.cx(q1, q2);
        Ok(None)
    } else if is_text(&s, "CY") {
        sim.cy(q1, q2);
        Ok(None)
    } else if is_text(&s, "CZ") {
        sim.cz(q1, q2);
        Ok(None)
    } else if is_text(&s, "SXX") {
        sim.sxx(q1, q2);
        Ok(None)
    } else if is_text(&s, "SXXdg") {
        sim.sxxdg(q1, q2);
        Ok(None)
    } else if is_text(&s, "SYY") {
        sim.syy(q1, q2);
        Ok(None)
    } else if is_text(&s, "SYYdg") {
        sim.syydg(q1, q2);
        Ok(None)
    } else if is_text(&s, "SZZ") {
        sim.szz(q1, q2);
        Ok(None)
    } else if is_text(&s, "SZZdg") {
        sim.szzdg(q1, q2);
        Ok(None)
    } else if is_text(&s, "SWAP") {
        sim.swap(q1, q2);
        Ok(None)
    } else if is_text(&s, "G2") {
        sim.g(q1, q2);
        Ok(None)
    } else {
        Err("Unsupported two-qubit gate".to_string())
    }
}

/// Applies the operation named `symbol` to one or two qubits (see `run_1q_gate` and
/// `run_2q_gate`); refuses other numbers of qubits.
pub fn run_gate<S: CliffordGateable>(sim: &mut S, symbol: &str, location: &[usize]) -> (r: Result<
    Option<u8>,
    String,
>)
    ensures
        location@.len() == 1 ==> one_qubit_step::<S>(
            symbol@,
            old(sim)@,
            location@[0],
            final(sim)@,
            result_text(r),
        ),
        location@.len() == 2 ==> two_qubit_step::<S>(
            symbol@,
            old(sim)@,
            location@,
            final(sim)@,
            result_text(r),
        ),
        location@.len() != 1 && location@.len() != 2 ==> final(sim)@ == old(sim)@ && result_text(r)
            == Err::<Option<u8>, Seq<char>>(
            "Gate location must be specified for either 1 or 2 qubits"@,
        ),
{
    if location.len() == 1 {
        run_1q_gate(sim, symbol, location[0])
    } else if location.len() == 2 {
        run_2q_gate(sim, symbol, location)
    } else {
        Err("Gate location must be specified for either 1 or 2 qubits".to_string())
    }
}

} // verus!
