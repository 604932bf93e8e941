use crate::types::{
    angle_arg, angle_views, angle_word, index_arg, index_word, join_text, result_text, word_is,
    word_views,
};
use vstd::prelude::*;

pub use crate::types::{MeasurementStatistics, QubitStats, ShotResult};

verus! {

/// A gate of an engine command. Angles are in radians, held as the bits of an IEEE-754
/// binary64 number (as `f64::to_bits` gives them).
#[derive(Debug, Clone, Copy, PartialEq, Eq, Structural)]
pub enum GateType {
    RZ { theta: u64 },
    RXY { phi: u64, theta: u64 },
    ZZ,
    Measure { result_id: usize },
}

/// A gate applied to qubits.
#[derive(Debug, Clone)]
pub struct QuantumCommand {
    pub gate: GateType,
    pub qubits: Vec<usize>,
}

/// A parse result taken by its view: its gate and qubits, or the error's text.
pub open spec fn engine_command_view(r: Result<QuantumCommand, String>) -> Result<
    (GateType, Seq<usize>),
    Seq<char>,
> {
    match r {
        Ok(c) => Ok((c.gate, c.qubits@)),
        Err(m) => Err(m@),
    }
}

/// A vector of one index.
fn one_index(a: usize) -> (v: Vec<usize>)
    ensures
        v@ == seq![a],
{
    let mut v: Vec<usize> = Vec::new();
    v.push(a);
    proof {
        assert(v@ =~= seq![a]);
    }
    v
}

/// A vector of two indices.
fn two_indices(a: usize, b: usize) -> (v: Vec<usize>)
    ensures
        v@ == seq![a, b],
{
    let mut v: Vec<usize> = Vec::new();
    v.push(a);
    v.push(b);
    proof {
        assert(v@ =~= seq![a, b]);
    }
    v
}

/// How the words of a command read, given what reading each word as an angle gave:
/// `RZ theta qubit`, `RXY phi theta qubit`, `ZZ qubit1 qubit2` and
/// `M qubit result_id`.
pub open spec fn engine_command_form(parts: Seq<Seq<char>>, angles: Seq<Result<u64, Seq<char>>>) -> Result<
    (GateType, Seq<usize>),
    Seq<char>,
> {
    if parts.len() == 0 {
        Err("Unknown command type: <empty>"@)
    } else if parts[0] == "RZ"@ {
        if parts.len() != 3 {
            Err("Invalid RZ format"@)
        } else {
            match angle_arg(angles[1], "Invalid theta: "@) {
                Err(m) => Err(m),
                Ok(theta) => match index_arg(parts[2], "Invalid qubit: "@) {
                    Err(m) => Err(m),
                    Ok(q) => Ok((GateType::RZ { theta }, seq![q])),
                },
            }
        }
    } else if parts[0] == "RXY"@ {
        if parts.len() != 4 {
            Err("Invalid RXY format"@)
        } else {
            match angle_arg(angles[1], "Invalid phi: "@) {
                Err(m) => Err(m),
                Ok(phi) => match angle_arg(angles[2], "Invalid theta: "@) {
                    Err(m) => Err(m),
                    Ok(theta) => match index_arg(parts[3], "Invalid qubit: "@) {
                        Err(m) => Err(m),
                        Ok(q) => Ok((GateType::RXY { phi, theta }, seq![q])),
                    },
                },
            }
        }
    } else if parts[0] == "ZZ"@ {
        if parts.len() != 3 {
            Err("Invalid ZZ format"@)
        } else {
            match index_arg(parts[1], "Invalid qubit1: "@) {
                Err(m) => Err(m),
                Ok(q1) => match index_arg(parts[2], "Invalid qubit2: "@) {
                    Err(m) => Err(m),
                    Ok(q2) => Ok((GateType::ZZ, seq![q1, q2])),
                },
            }
        }
    } else if parts[0] == "M"@ {
        if parts.len() != 3 {
            Err("Invalid M format"@)
        } else {
            match index_arg(parts[2], "Invalid result_id: "@) {
                Err(m) => Err(m),
                Ok(result_id) => match index_arg(parts[1], "Invalid qubit: "@) {
                    Err(m) => Err(m),
                    Ok(q) => Ok((GateType::Measure { result_id }, seq![q])),
                },
            }
        }
    } else {
        Err("Unknown command type: "@ + parts[0])
    }
}

impl QuantumCommand {
    /// Builds a command from its words (as `split_whitespace` gives them) and what
    /// reading each word as an angle in radians gave (see `command_form`).
    pub fn from_parts(parts: &Vec<String>, angles: &Vec<Result<u64, String>>) -> (r: Result<
        Self,
        String,
    >)
        requires
            angles@.len() == parts@.len(),
        ensures
            engine_command_view(r) == engine_command_form(word_views(parts@), angle_views(angles@)),
    {
        let ghost w = word_views(parts@);
        let ghost a = angle_views(angles@);
        let n = parts.len();
        proof {
            assert(n > 0 ==> w[0] == parts@[0]@);
            assert(n > 1 ==> w[1] == parts@[1]@ && a[1] == result_text(angles@[1]));
            assert(n > 2 ==> w[2] == parts@[2]@ && a[2] == result_text(angles@[2]));
            assert(n > 3 ==> w[3] == parts@[3]@);
        }
        if n == 0 {
            return Err("Unknown command type: <empty>".to_string());
        }
        if word_is(&parts[0], "RZ") {
            if n != 3 {
                return Err("Invalid RZ format".to_string());
            }
            let theta = match angle_word(&angles[1], "Invalid theta: ") {
                Ok(v) => v,
                Err(m) => {
                    return Err(m);
                },
            };
            let q = match index_word(&parts[2], "Invalid qubit: ") {
                Ok(v) => v,
                Err(m) => {
                    return Err(m);
                },
            };
            Ok(QuantumCommand { gate: GateType::RZ { theta }, qubits: one_index(q) })
        } else if word_is(&parts[0], "RXY") {
            if n != 4 {
                return Err("Invalid RXY format".to_string());
            }
            let phi = match angle_word(&angles[1], "Invalid phi: ") {
                Ok(v) => v,
                Err(m) => {
                    return Err(m);
                },
            };
            let theta = match angle_word(&angles[2], "Invalid theta: ") {
                Ok(v) => v,
                Err(m) => {
                    return Err(m);
                },
            };
            let q = match index_word(&parts[3], "Invalid qubit: ") {
                Ok(v) => v,
                Err(m) => {
                    return Err(m);
                },
            };
            Ok(QuantumCommand { gate: GateType::RXY { phi, theta }, qubits: one_index(q) })
        } else if word_is(&parts[0], "ZZ") {
            if n != 3 {
                return Err("Invalid ZZ format".to_string());
            }
            let q1 = match index_word(&parts[1], "Invalid qubit1: ") {
                Ok(v) => v,
                Err(m) => {
                    return Err(m);
                },
            };
            let q2 = match index_word(&parts[2], "Invalid qubit2: ") {
                Ok(v) => v,
                Err(m) => {
                    return Err(m);
                },
            };
            Ok(QuantumCommand { gate: GateType::ZZ, qubits: two_indices(q1, q2) })
        } else if word_is(&parts[0], "M") {
            if n != 3 {
                return Err("Invalid M format".to_string());
            }
            let result_id = match index_word(&parts[2], "Invalid result_id: ") {
                Ok(v) => v,
                Err(m) => {
                    return Err(m);
                },
            };
            let q = match index_word(&parts[1], "Invalid qubit: ") {
                Ok(v) => v,
                Err(m) => {
                    return Err(m);
                },
            };
            Ok(QuantumCommand { gate: GateType::Measure { result_id }, qubits: one_index(q) })
        } else {
            Err(join_text("Unknown command type: ", &parts[0]))
        }
    }
}

} // verus!
