use crate::qsim::clifford_gateable::{szz_spec, CliffordGateable, MeasurementResult};
use crate::qsim::quantum_simulator::QuantumSimulator;
use crate::noise::{command_spec, commands_spec};
use crate::protocol::{measurement_key, measurement_key_text};
use crate::types::{join_text, GateType, QuantumCommand, ShotResult};
use vstd::prelude::*;

verus! {

/// Why an engine operation failed, with a description.
#[derive(Debug, Clone, PartialEq)]
pub enum QueueError {
    LockError(String),
    OperationError(String),
    ExecutionError(String),
    SerializationError(String),
}

/// The text of an error: a heading for its kind, then its description.
pub open spec fn queue_error_text(e: QueueError) -> Seq<char> {
    match e {
        QueueError::LockError(m) => "Queue lock error: "@ + m@,
        QueueError::OperationError(m) => "Queue operation error: "@ + m@,
        QueueError::ExecutionError(m) => "Program execution error: "@ + m@,
        QueueError::SerializationError(m) => "Serialization error: "@ + m@,
    }
}

impl QueueError {
    /// The error as text (see `queue_error_text`).
    pub fn message(&self) -> (s: String)
        ensures
            s@ == queue_error_text(*self),
    {
        match self {
            QueueError::LockError(m) => join_text("Queue lock error: ", m),
            QueueError::OperationError(m) => join_text("Queue operation error: ", m),
            QueueError::ExecutionError(m) => join_text("Program execution error: ", m),
            QueueError::SerializationError(m) => join_text("Serialization error: ", m),
        }
    }
}

/// The number of qubits a gate acts on.
pub open spec fn gate_arity(g: GateType) -> nat {
    match g {
        GateType::SZZ | GateType::CX => 2,
        _ => 1,
    }
}

/// The number of qubits a gate acts on (see `gate_arity`).
pub fn qubits_needed(gate: GateType) -> (n: usize)
    ensures
        n == gate_arity(gate),
{
    match gate {
        GateType::SZZ | GateType::CX => 2,
        _ => 1,
    }
}

/// Whether an engine may be handed the command: the Clifford gates and measurements
/// carry the qubits they act on; a rotation is taken as it is, since an engine may refuse
/// it without reading a qubit.
pub open spec fn runnable(cmd: QuantumCommand) -> bool {
    cmd.gate is RZ || cmd.gate is R1XY || cmd.qubits@.len() >= gate_arity(cmd.gate)
}

/// Whether an engine may be handed the command (see `runnable`).
pub fn can_run(cmd: &QuantumCommand) -> (b: bool)
    ensures
        b == runnable(*cmd),
{
    match cmd.gate {
        GateType::RZ { .. } | GateType::R1XY { .. } => true,
        _ => cmd.qubits.len() >= qubits_needed(cmd.gate),
    }
}

/// Runs quantum commands on a simulator.
///
/// An engine keeps, as a model, the log of the commands it has been handed since it was
/// last reset, each with the answer it gave.
pub trait QuantumEngine {
    /// The commands handed to the engine since its last reset, in order, each with the
    /// answer it gave.
    closed spec fn log(&self) -> Seq<((GateType, Seq<usize>), Option<u32>)> {
        Seq::empty()
    }

    /// Applies one command; a measurement gives its outcome, 0 or 1. A command that is
    /// applied joins the log with its answer.
    fn process_command(&mut self, cmd: &QuantumCommand) -> (r: Result<Option<u32>, QueueError>)
        requires
            runnable(*cmd),
        ensures
            r matches Ok(o) ==> final(self).log() == old(self).log().push((command_spec(*cmd), o)),
    ;

    /// Returns the simulator to its initial state; the log starts afresh.
    fn reset_state(&mut self) -> (r: Result<(), QueueError>)
        ensures
            r is Ok ==> final(self).log() == Seq::<((GateType, Seq<usize>), Option<u32>)>::empty(),
    ;
}

/// An engine for simulators of Clifford gates only.
pub struct CliffordEngine<S> {
    simulator: S,
    handed: Ghost<Seq<((GateType, Seq<usize>), Option<u32>)>>,
}

/// The outcome bit of a measurement: 1 for the -1 eigenvalue, 0 for +1.
pub open spec fn outcome_bit(m: MeasurementResult) -> u32 {
    if m.outcome {
        1
    } else {
        0
    }
}

impl<S: QuantumSimulator + CliffordGateable> CliffordEngine<S> {
    /// The state of the simulator.
    pub closed spec fn state(&self) -> S::V {
        self.simulator@
    }

    /// An engine that drives `simulator`.
    pub fn new(simulator: S) -> (e: Self)
        ensures
            e.state() == simulator@,
    {
        CliffordEngine { simulator, handed: Ghost(Seq::empty()) }
    }

    /// The simulator.
    pub fn simulator(&self) -> (s: &S)
        ensures
            s@ == self.state(),
    {
        &self.simulator
    }
}

impl<S: QuantumSimulator + CliffordGateable> QuantumEngine for CliffordEngine<S> {
    closed spec fn log(&self) -> Seq<((GateType, Seq<usize>), Option<u32>)> {
        self.handed@
    }

    /// Applies `H`, `CX`, `SZZ` or a Z measurement; rotations are refused, since the
    /// simulator only knows Clifford gates.
    fn process_command(&mut self, cmd: &QuantumCommand) -> (r: Result<Option<u32>, QueueError>)
        ensures
            cmd.gate == GateType::H ==> r == Ok::<Option<u32>, QueueError>(None)
                && final(self).state() == S::h_spec(old(self).state(), cmd.qubits@[0]),
            cmd.gate == GateType::CX ==> r == Ok::<Option<u32>, QueueError>(None)
                && final(self).state() == S::cx_spec(
                old(self).state(),
                cmd.qubits@[0],
                cmd.qubits@[1],
            ),
            cmd.gate == GateType::SZZ ==> r == Ok::<Option<u32>, QueueError>(None)
                && final(self).state() == szz_spec::<S>(
                old(self).state(),
                cmd.qubits@[0],
                cmd.qubits@[1],
            ),
            cmd.gate is Measure ==> exists|m: MeasurementResult|
                S::mz_spec(old(self).state(), cmd.qubits@[0], m, final(self).state()) && r
                    == Ok::<Option<u32>, QueueError>(Some(outcome_bit(m))),
            (cmd.gate is RZ || cmd.gate is R1XY) ==> final(self).state() == old(self).state(),
            (cmd.gate is RZ || cmd.gate is R1XY) ==> (r matches Err(QueueError::OperationError(msg))
                && msg@ == "This simulator only supports Clifford operations"@),
    {
        match cmd.gate {
            GateType::H => {
                self.simulator.h(cmd.qubits[0]);
                proof {
                    self.handed@ = self.handed@.push((command_spec(*cmd), None));
                }
                Ok(None)
            },
            GateType::CX => {
                self.simulator.cx(cmd.qubits[0], cmd.qubits[1]);
                proof {
                    self.handed@ = self.handed@.push((command_spec(*cmd), None));
                }
                Ok(None)
            },
            GateType::SZZ => {
                self.simulator.szz(cmd.qubits[0], cmd.qubits[1]);
                proof {
                    self.handed@ = self.handed@.push((command_spec(*cmd), None));
                }
                Ok(None)
            },
            GateType::Measure { .. } => {
                let m = self.simulator.mz(cmd.qubits[0]);
                let bit: u32 = if m.outcome {
                    1
                } else {
                    0
                };
                proof {
                    self.handed@ = self.handed@.push((command_spec(*cmd), Some(bit)));
                    assert(S::mz_spec(old(self).state(), cmd.qubits@[0], m, self.state()));
                    assert(bit == outcome_bit(m));
                }
                Ok(Some(bit))
            },
            _ => Err(
                QueueError::OperationError(
                    "This simulator only supports Clifford operations".to_string(),
                ),
            ),
        }
    }

    /// Resets the simulator.
    fn reset_state(&mut self) -> (r: Result<(), QueueError>)
        ensures
            r is Ok,
            final(self).state() == S::reset_spec(old(self).state()),
    {
        self.simulator.reset();
        proof {
            self.handed@ = Seq::empty();
        }
        Ok(())
    }
}

/// The engine for a Clifford simulator.
pub fn new_quantum_engine<S: QuantumSimulator + CliffordGateable>(simulator: S) -> (e:
    CliffordEngine<S>)
    ensures
        e.state() == simulator@,
{
    CliffordEngine::new(simulator)
}

/// The record of a shot after one more command and the engine's answer to it: a
/// measurement that gave an outcome `v` records `v` under `measurement_k`, `k` its result
/// id (replacing an earlier value under that key); anything else leaves the record as it is.
pub open spec fn record_step(m: Map<Seq<char>, u32>, cmd: (GateType, Seq<usize>), out: Option<u32>) -> Map<
    Seq<char>,
    u32,
> {
    match (cmd.0, out) {
        (GateType::Measure { result_id }, Some(v)) => m.insert(measurement_key(result_id as nat), v),
        _ => m,
    }
}

/// What a shot records from the commands it handed an engine and the answers it got, in
/// order (see `record_step`).
pub open spec fn shot_record(log: Seq<((GateType, Seq<usize>), Option<u32>)>) -> Map<Seq<char>, u32>
    decreases log.len(),
{
    if log.len() == 0 {
        Map::empty()
    } else {
        record_step(shot_record(log.drop_last()), log.last().0, log.last().1)
    }
}

/// Records the engine's answer to a command in a shot (see `record_step`).
pub fn record_outcome(shot: &mut ShotResult, cmd: &QuantumCommand, out: Option<u32>)
    ensures
        final(shot).measurements.map_view() == record_step(
            old(shot).measurements.map_view(),
            command_spec(*cmd),
            out,
        ),
{
    match out {
        Some(v) => match cmd.gate {
            GateType::Measure { result_id } => {
                shot.measurements.insert(measurement_key_text(result_id), v);
            },
            _ => {},
        },
        None => {},
    }
}

/// Runs one shot on an engine: resets it, then hands it the commands in order, and records
/// each answer (see `record_outcome`); stops at the first error of the engine. On success
/// the engine's log is exactly the commands, in order, with its answers, and the record is
/// `shot_record` of that log.
pub fn run_shot_commands<E: QuantumEngine + ?Sized>(
    quantum: &mut E,
    commands: &Vec<QuantumCommand>,
) -> (r: Result<ShotResult, QueueError>)
    requires
        forall|i: int| 0 <= i < commands@.len() ==> runnable(#[trigger] commands@[i]),
    ensures
        r is Ok ==> final(quantum).log().len() == commands@.len(),
        r is Ok ==> forall|i: int|
            0 <= i < commands@.len() ==> (#[trigger] final(quantum).log()[i]).0 == command_spec(
                commands@[i],
            ),
        r matches Ok(s) ==> s.measurements.map_view() == shot_record(final(quantum).log()),
{
    match quantum.reset_state() {
        Ok(()) => {},
        Err(e) => {
            return Err(e);
        },
    }
    let mut shot = ShotResult::new();
    let mut k: usize = 0;
    while k < commands.len()
        invariant
            k <= commands@.len(),
            forall|i: int| 0 <= i < commands@.len() ==> runnable(#[trigger] commands@[i]),
            quantum.log().len() == k,
            forall|i: int|
                0 <= i < k ==> (#[trigger] quantum.log()[i]).0 == command_spec(commands@[i]),
            shot.measurements.map_view() == shot_record(quantum.log()),
        decreases commands@.len() - k,
    {
        let ghost before = quantum.log();
        let out = match quantum.process_command(&commands[k]) {
            Ok(o) => o,
            Err(e) => {
                return Err(e);
            },
        };
        proof {
            assert(quantum.log().drop_last() =~= before);
            assert(quantum.log().last() == (command_spec(commands@[k as int]), out));
            assert forall|i: int| 0 <= i < k + 1 implies (#[trigger] quantum.log()[i]).0
                == command_spec(commands@[i]) by {
                if i < k {
                    assert(quantum.log()[i] == before[i]);
                }
            }
        }
        record_outcome(&mut shot, &commands[k], out);
        k = k + 1;
    }
    Ok(shot)
}

} // verus!
