use vstd::prelude::*;

verus! {

/// The named gates, Clifford and not. Rotation angles are in radians, held as the bits of
/// IEEE-754 binary64 numbers.
#[derive(Debug, Clone, Copy, PartialEq, Eq, Structural)]
pub enum Gate {
    I,
    X,
    Y,
    Z,
    SX,
    SXdg,
    SY,
    SYdg,
    SZ,
    SZdg,
    H,
    H2,
    H3,
    H4,
    H5,
    H6,
    F,
    Fdg,
    F2,
    F2dg,
    F3,
    F3dg,
    F4,
    F4dg,
    CX,
    CY,
    CZ,
    SXX,
    SXXdg,
    SYY,
    SYYdg,
    SZZ,
    SZZdg,
    SWAP,
    G,
    MX,
    MnX,
    MY,
    MnY,
    MZ,
    MnZ,
    PX,
    PnX,
    PY,
    PnY,
    PZ,
    PnZ,
    MPX,
    MPnX,
    MPY,
    MPnY,
    MPZ,
    MPnZ,
    RX(u64),
    RY(u64),
    RZ(u64),
    U(u64, u64, u64),
    R1XY(u64, u64),
    T,
    Tdg,
    RXX(u64),
    RYY(u64),
    RZZ(u64),
    RXXRYYRZZ(u64, u64, u64),
    CustomGate,
}

} // verus!
