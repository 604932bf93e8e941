use crate::engines::QueueError;
use crate::noise::{command_spec, commands_spec};
use crate::protocol::{measurement_key, measurement_key_text};
use crate::text::{append_chars, chars_of, decimal_chars, decimal_text, string_from_chars};
use crate::text_map::TextMap;
use crate::types::{join_text, word_is, GateType, QuantumCommand, ShotResult};
use vstd::prelude::*;

verus! {

/// One operation of a PHIR program. Angles are in radians, held as the bits of IEEE-754
/// binary64 numbers.
#[derive(Debug, Clone)]
pub enum Operation {
    /// Declares a quantum or classical variable.
    VariableDefinition { data: String, data_type: String, variable: String, size: usize },
    /// A quantum operation on elements of variables; a measurement names in `outputs` the
    /// classical element its outcome is written to.
    QuantumOp {
        qop: String,
        angles: Option<(Vec<u64>, String)>,
        args: Vec<(String, usize)>,
        outputs: Vec<(String, usize)>,
    },
    /// A classical operation on elements of variables.
    ClassicalOp { cop: String, args: Vec<(String, usize)>, outputs: Vec<(String, usize)> },
}

/// The mathematical reading of an operation.
pub enum OpView {
    VarDef { data: Seq<char>, data_type: Seq<char>, variable: Seq<char>, size: usize },
    Quantum {
        qop: Seq<char>,
        angles: Option<Seq<u64>>,
        args: Seq<(Seq<char>, usize)>,
        outputs: Seq<(Seq<char>, usize)>,
    },
    Classical { cop: Seq<char>, args: Seq<(Seq<char>, usize)>, outputs: Seq<(Seq<char>, usize)> },
}

/// The view of a list of variable elements.
pub open spec fn args_view(a: Seq<(String, usize)>) -> Seq<(Seq<char>, usize)> {
    a.map_values(|x: (String, usize)| (x.0@, x.1))
}

/// The view of an operation.
pub open spec fn op_view(op: Operation) -> OpView {
    match op {
        Operation::VariableDefinition { data, data_type, variable, size } => OpView::VarDef {
            data: data@,
            data_type: data_type@,
            variable: variable@,
            size,
        },
        Operation::QuantumOp { qop, angles, args, outputs } => OpView::Quantum {
            qop: qop@,
            angles: match angles {
                Some(a) => Some(a.0@),
                None => None,
            },
            args: args_view(args@),
            outputs: args_view(outputs@),
        },
        Operation::ClassicalOp { cop, args, outputs } => OpView::Classical {
            cop: cop@,
            args: args_view(args@),
            outputs: args_view(outputs@),
        },
    }
}

/// The views of a list of operations.
pub open spec fn ops_view(ops: Seq<Operation>) -> Seq<OpView> {
    ops.map_values(|op: Operation| op_view(op))
}

/// A PHIR program: its format, version, metadata and operations.
#[derive(Debug, Clone)]
pub struct PHIRProgram {
    pub format: String,
    pub version: String,
    pub metadata: TextMap<String>,
    pub ops: Vec<Operation>,
}

/// Whether running an operation is defined: the elements and angles that it reads are
/// there (measurements, rotations, `SZZ` and `H` need their qubits, rotations their
/// angles, and `Result` a source and a destination).
pub open spec fn op_sound(op: OpView) -> bool {
    match op {
        OpView::VarDef { .. } => true,
        OpView::Quantum { qop, angles, args, .. } => {
            &&& (qop == "Measure"@ || qop == "H"@ || qop == "RZ"@ || qop == "R1XY"@) ==> args.len()
                >= 1
            &&& qop == "SZZ"@ ==> args.len() >= 2
            &&& qop == "RZ"@ ==> (angles matches Some(a) ==> a.len() >= 1)
            &&& qop == "R1XY"@ ==> (angles matches Some(a) ==> a.len() >= 2)
        },
        OpView::Classical { cop, args, outputs } => cop == "Result"@ ==> args.len() >= 1
            && outputs.len() >= 1,
    }
}

/// Whether running every operation of a program is defined.
pub open spec fn ops_sound(ops: Seq<OpView>) -> bool {
    forall|i: int| 0 <= i < ops.len() ==> op_sound(#[trigger] ops[i])
}

/// Whether access to element `idx` of `var` is allowed: the variable is declared, as a
/// quantum variable first, and `idx` is below its size; else the error's text.
pub open spec fn access_check(
    qv: Map<Seq<char>, usize>,
    cv: Map<Seq<char>, (Seq<char>, usize)>,
    var: Seq<char>,
    idx: usize,
) -> Result<(), Seq<char>> {
    if qv.dom().contains(var) {
        if idx >= qv[var] {
            Err("Index "@ + decimal_text(idx as nat) + " out of bounds for quantum variable "@ + var
                + " of size "@ + decimal_text(qv[var] as nat))
        } else {
            Ok(())
        }
    } else if cv.dom().contains(var) {
        if idx >= cv[var].1 {
            Err("Index "@ + decimal_text(idx as nat) + " out of bounds for classical variable "@
                + var + " of size "@ + decimal_text(cv[var].1 as nat))
        } else {
            Ok(())
        }
    } else {
        Err("Undefined variable: "@ + var)
    }
}

/// The first failing access among `args`, in order.
pub open spec fn access_check_all(
    qv: Map<Seq<char>, usize>,
    cv: Map<Seq<char>, (Seq<char>, usize)>,
    args: Seq<(Seq<char>, usize)>,
) -> Result<(), Seq<char>>
    decreases args.len(),
{
    if args.len() == 0 {
        Ok(())
    } else {
        match access_check_all(qv, cv, args.drop_last()) {
            Err(e) => Err(e),
            Ok(()) => access_check(qv, cv, args.last().0, args.last().1),
        }
    }
}

/// The command that a quantum operation stands for (after its accesses were checked), or
/// the error's text; `measured` is the number of measurements recorded so far.
pub open spec fn quantum_command_of(
    qop: Seq<char>,
    angles: Option<Seq<u64>>,
    args: Seq<(Seq<char>, usize)>,
    measured: nat,
) -> Result<(GateType, Seq<usize>), Seq<char>> {
    if qop == "RZ"@ {
        match angles {
            Some(a) => Ok((GateType::RZ { theta: a[0] }, seq![args[0].1])),
            None => Err("Missing angle for RZ"@),
        }
    } else if qop == "R1XY"@ {
        match angles {
            Some(a) => Ok((GateType::R1XY { phi: a[0], theta: a[1] }, seq![args[0].1])),
            None => Err("Missing angles for R1XY"@),
        }
    } else if qop == "SZZ"@ {
        Ok((GateType::SZZ, seq![args[0].1, args[1].1]))
    } else if qop == "H"@ {
        Ok((GateType::H, seq![args[0].1]))
    } else if qop == "CX"@ {
        if args.len() != 2 {
            Err("CX gate requires control and target qubits"@)
        } else {
            Ok((GateType::CX, seq![args[0].1, args[1].1]))
        }
    } else if qop == "Measure"@ {
        Ok((GateType::Measure { result_id: measured as usize }, seq![args[0].1]))
    } else {
        Err("Unknown quantum operation: "@ + qop)
    }
}

/// The state of a PHIR run that the operations change: the position, the pending batch,
/// the declared variables, and, for each measurement issued so far, the classical element
/// its outcome is written to (where the operation names one).
pub struct PhirState {
    pub current: nat,
    pub pending: Seq<(GateType, Seq<usize>)>,
    pub qvars: Map<Seq<char>, usize>,
    pub cvars: Map<Seq<char>, (Seq<char>, usize)>,
    pub targets: Seq<Option<(Seq<char>, usize)>>,
}

/// The classical element a measurement writes to: the first of its outputs, if any.
pub open spec fn measure_target(outputs: Seq<(Seq<char>, usize)>) -> Option<(Seq<char>, usize)> {
    if outputs.len() > 0 {
        Some(outputs[0])
    } else {
        None
    }
}

/// The key under which the `n`-th measurement outcome is recorded: `var_idx` for the
/// classical element `var[idx]` its measurement writes to, else `measurement_n`.
pub open spec fn outcome_key(targets: Seq<Option<(Seq<char>, usize)>>, n: nat) -> Seq<char> {
    if n < targets.len() {
        match targets[n as int] {
            Some(t) => t.0 + "_"@ + decimal_text(t.1 as nat),
            None => measurement_key(n),
        }
    } else {
        measurement_key(n)
    }
}

/// What running one operation gives: the next state, whether the pending batch should
/// be handed out, and the updated count of measurements of this run; or an error.
pub enum StepOutcome {
    Next(PhirState, bool, nat),
    Failed(Seq<char>),
}

/// Runs the operation at `s.current` (see the engine's `process_program`); `count` is
/// the number of measurements issued so far in this run.
pub open spec fn phir_step(ops: Seq<OpView>, s: PhirState, count: nat) -> StepOutcome {
    match ops[s.current as int] {
        OpView::VarDef { data, data_type, variable, size } => {
            let s2 = if data == "qvar_define"@ && data_type == "qubits"@ {
                PhirState { qvars: s.qvars.insert(variable, size), ..s }
            } else if data == "cvar_define"@ {
                PhirState { cvars: s.cvars.insert(variable, (data_type, size)), ..s }
            } else {
                s
            };
            StepOutcome::Next(s2, false, count)
        },
        OpView::Quantum { qop, angles, args, outputs } => if qop == "Measure"@ {
            StepOutcome::Next(
                PhirState {
                    pending: s.pending.push(
                        (GateType::Measure { result_id: count as usize }, seq![args[0].1]),
                    ),
                    targets: s.targets.push(measure_target(outputs)),
                    ..s
                },
                false,
                count + 1,
            )
        } else {
            match access_check_all(s.qvars, s.cvars, args) {
                Err(e) => StepOutcome::Failed(e),
                Ok(()) => match quantum_command_of(qop, angles, args, 0) {
                    Err(e) => StepOutcome::Failed(e),
                    Ok(c) => StepOutcome::Next(
                        PhirState { pending: s.pending.push(c), ..s },
                        false,
                        count,
                    ),
                },
            }
        },
        OpView::Classical { cop, args, outputs } => match access_check_all(
            s.qvars,
            s.cvars,
            if cop == "Result"@ {
                args
            } else {
                args + outputs
            },
        ) {
            Err(e) => StepOutcome::Failed(e),
            Ok(()) => {
                let more_results = s.current + 1 < ops.len() && (ops[s.current as int + 1] matches
                    OpView::Classical { cop: next_cop, .. } && next_cop == "Result"@);
                StepOutcome::Next(s, cop == "Result"@ && !more_results, count)
            },
        },
    }
}

/// Runs a program from `s` until a batch of commands is due: the state after, and the
/// batch or the error's text.
pub open spec fn phir_run(ops: Seq<OpView>, s: PhirState, count: nat) -> (
    PhirState,
    Result<Seq<(GateType, Seq<usize>)>, Seq<char>>,
)
    decreases ops.len() - s.current,
{
    if s.current >= ops.len() {
        (PhirState { pending: Seq::empty(), ..s }, Ok(s.pending))
    } else {
        match phir_step(ops, s, count) {
            StepOutcome::Failed(e) => (s, Err(e)),
            StepOutcome::Next(s1, ret, count1) => {
                let s2 = PhirState { current: s.current + 1, ..s1 };
                if ret && s2.pending.len() > 0 {
                    (PhirState { pending: Seq::empty(), ..s2 }, Ok(s2.pending))
                } else {
                    phir_run(ops, s2, count1)
                }
            },
        }
    }
}

/// Whether every operation that a run from `s` reaches is sound (see `op_sound`): the
/// run stops at the end of the program, at a failing operation or where it hands out a
/// batch, and never reads beyond what an operation holds.
pub open spec fn run_sound(ops: Seq<OpView>, s: PhirState, count: nat) -> bool
    decreases ops.len() - s.current,
{
    if s.current >= ops.len() {
        true
    } else {
        op_sound(ops[s.current as int]) && match phir_step(ops, s, count) {
            StepOutcome::Failed(_) => true,
            StepOutcome::Next(s1, ret, count1) => {
                let s2 = PhirState { current: s.current + 1, ..s1 };
                if ret && s2.pending.len() > 0 {
                    true
                } else {
                    run_sound(ops, s2, count1)
                }
            },
        }
    }
}

/// A program whose every operation is sound is sound on every run.
pub proof fn lemma_sound_ops_run(ops: Seq<OpView>, s: PhirState, count: nat)
    requires
        ops_sound(ops),
    ensures
        run_sound(ops, s, count),
    decreases ops.len() - s.current,
{
    if s.current < ops.len() {
        assert(op_sound(ops[s.current as int]));
        match phir_step(ops, s, count) {
            StepOutcome::Failed(_) => {},
            StepOutcome::Next(s1, ret, count1) => {
                let s2 = PhirState { current: s.current + 1, ..s1 };
                lemma_sound_ops_run(ops, s2, count1);
            },
        }
    }
}

/// Appends the characters of `s` to `out`.
fn push_text(out: &mut Vec<char>, s: &str)
    ensures
        final(out)@ == old(out)@ + s@,
{
    let w = chars_of(s);
    append_chars(out, &w);
}

/// Checks access to one element (see `access_check`).
fn check_access(qv: &TextMap<usize>, cv: &TextMap<(String, usize)>, var: &String, idx: usize) -> (r:
    Result<(), String>)
    ensures
        match r {
            Ok(()) => access_check(qv.map_view(), cv.map_view(), var@, idx) == Ok::<
                (),
                Seq<char>,
            >(()),
            Err(m) => access_check(qv.map_view(), cv.map_view(), var@, idx) == Err::<
                (),
                Seq<char>,
            >(m@),
        },
{
    match qv.get(var.as_str()) {
        Some(size) => {
            if idx >= *size {
                let mut out: Vec<char> = Vec::new();
                push_text(&mut out, "Index ");
                append_chars(&mut out, &decimal_chars(idx as u64));
                push_text(&mut out, " out of bounds for quantum variable ");
                append_chars(&mut out, &chars_of(var.as_str()));
                push_text(&mut out, " of size ");
                append_chars(&mut out, &decimal_chars(*size as u64));
                proof {
                    assert(out@ =~= "Index "@ + decimal_text(idx as nat)
                        + " out of bounds for quantum variable "@ + var@ + " of size "@
                        + decimal_text(qv.map_view()[var@] as nat));
                }
                return Err(string_from_chars(&out));
            }
            return Ok(());
        },
        None => {},
    }
    match cv.get(var.as_str()) {
        Some(entry) => {
            if idx >= entry.1 {
                let mut out: Vec<char> = Vec::new();
                push_text(&mut out, "Index ");
                append_chars(&mut out, &decimal_chars(idx as u64));
                push_text(&mut out, " out of bounds for classical variable ");
                append_chars(&mut out, &chars_of(var.as_str()));
                push_text(&mut out, " of size ");
                append_chars(&mut out, &decimal_chars(entry.1 as u64));
                proof {
                    assert(out@ =~= "Index "@ + decimal_text(idx as nat)
                        + " out of bounds for classical variable "@ + var@ + " of size "@
                        + decimal_text(cv.map_view()[var@].1 as nat));
                }
                return Err(string_from_chars(&out));
            }
            Ok(())
        },
        None => Err(join_text("Undefined variable: ", var)),
    }
}

/// Checks access to each element of `args`, in order (see `access_check_all`).
fn check_all(qv: &TextMap<usize>, cv: &TextMap<(String, usize)>, args: &Vec<(String, usize)>) -> (r:
    Result<(), String>)
    ensures
        match r {
            Ok(()) => access_check_all(qv.map_view(), cv.map_view(), args_view(args@)) == Ok::<
                (),
                Seq<char>,
            >(()),
            Err(m) => access_check_all(qv.map_view(), cv.map_view(), args_view(args@)) == Err::<
                (),
                Seq<char>,
            >(m@),
        },
{
    let ghost a = args_view(args@);
    let mut k: usize = 0;
    while k < args.len()
        invariant
            k <= args@.len(),
            a == args_view(args@),
            access_check_all(qv.map_view(), cv.map_view(), a.take(k as int)) == Ok::<
                (),
                Seq<char>,
            >(()),
        decreases args@.len() - k,
    {
        proof {
            assert(a.take(k + 1).drop_last() =~= a.take(k as int));
            assert(a.take(k + 1).last() == (args@[k as int].0@, args@[k as int].1));
        }
        match check_access(qv, cv, &args[k].0, args[k].1) {
            Ok(()) => {},
            Err(m) => {
                proof {
                    lemma_check_all_prefix_fails(qv.map_view(), cv.map_view(), a, k + 1);
                }
                return Err(m);
            },
        }
        k = k + 1;
    }
    proof {
        assert(a.take(k as int) =~= a);
    }
    Ok(())
}

/// Once a prefix of the accesses fails, the whole list fails with the same error.
proof fn lemma_check_all_prefix_fails(
    qv: Map<Seq<char>, usize>,
    cv: Map<Seq<char>, (Seq<char>, usize)>,
    a: Seq<(Seq<char>, usize)>,
    k: int,
)
    requires
        0 <= k <= a.len(),
        access_check_all(qv, cv, a.take(k)) is Err,
    ensures
        access_check_all(qv, cv, a) == access_check_all(qv, cv, a.take(k)),
    decreases a.len() - k,
{
    if k < a.len() {
        assert(a.take(k + 1).drop_last() =~= a.take(k));
        lemma_check_all_prefix_fails(qv, cv, a, k + 1);
    } else {
        assert(a.take(k) =~= a);
    }
}

/// A command on the given qubits.
fn command(gate: GateType, a: usize, b: Option<usize>) -> (c: QuantumCommand)
    ensures
        command_spec(c) == (gate, match b {
            Some(x) => seq![a, x],
            None => seq![a],
        }),
{
    let mut qubits: Vec<usize> = Vec::new();
    qubits.push(a);
    match b {
        Some(x) => {
            qubits.push(x);
            proof {
                assert(qubits@ =~= seq![a, x]);
            }
        },
        None => {
            proof {
                assert(qubits@ =~= seq![a]);
            }
        },
    }
    QuantumCommand { gate, qubits }
}

/// Builds the command of a quantum operation (see `quantum_command_of`).
fn quantum_command(
    qop: &String,
    angles: &Option<(Vec<u64>, String)>,
    args: &Vec<(String, usize)>,
    measured: usize,
) -> (r: Result<QuantumCommand, String>)
    requires
        op_sound(
            OpView::Quantum {
                qop: qop@,
                angles: match angles {
                    Some(a) => Some(a.0@),
                    None => None,
                },
                args: args_view(args@),
                outputs: Seq::empty(),
            },
        ),
    ensures
        match r {
            Ok(c) => quantum_command_of(
                qop@,
                match angles {
                    Some(a) => Some(a.0@),
                    None => None,
                },
                args_view(args@),
                measured as nat,
            ) == Ok::<(GateType, Seq<usize>), Seq<char>>(command_spec(c)),
            Err(m) => quantum_command_of(
                qop@,
                match angles {
                    Some(a) => Some(a.0@),
                    None => None,
                },
                args_view(args@),
                measured as nat,
            ) == Err::<(GateType, Seq<usize>), Seq<char>>(m@),
        },
{
    let ghost av = args_view(args@);
    proof {
        if args@.len() > 0 {
            assert(av[0].1 == args@[0].1);
        }
        if args@.len() > 1 {
            assert(av[1].1 == args@[1].1);
        }
    }
    if word_is(qop, "RZ") {
        match angles {
            Some(a) => Ok(command(GateType::RZ { theta: a.0[0] }, args[0].1, None)),
            None => Err("Missing angle for RZ".to_string()),
        }
    } else if word_is(qop, "R1XY") {
        match angles {
            Some(a) => Ok(command(GateType::R1XY { phi: a.0[0], theta: a.0[1] }, args[0].1, None)),
            None => Err("Missing angles for R1XY".to_string()),
        }
    } else if word_is(qop, "SZZ") {
        Ok(command(GateType::SZZ, args[0].1, Some(args[1].1)))
    } else if word_is(qop, "H") {
        Ok(command(GateType::H, args[0].1, None))
    } else if word_is(qop, "CX") {
        if args.len() != 2 {
            Err("CX gate requires control and target qubits".to_string())
        } else {
            Ok(command(GateType::CX, args[0].1, Some(args[1].1)))
        }
    } else if word_is(qop, "Measure") {
        Ok(command(GateType::Measure { result_id: measured }, args[0].1, None))
    } else {
        Err(join_text("Unknown quantum operation: ", qop))
    }
}

/// Runs PHIR programs, handing out their quantum commands in batches.
pub struct PHIREngine {
    program: Option<PHIRProgram>,
    current_op: usize,
    measurement_results: TextMap<Vec<u32>>,
    pending_commands: Vec<QuantumCommand>,
    quantum_variables: TextMap<usize>,
    classical_variables: TextMap<(String, usize)>,
    measurement_targets: Vec<Option<(String, usize)>>,
    measurements_seen: usize,
}

/// The view of the classical elements that measurements write to.
pub open spec fn targets_view(v: Seq<Option<(String, usize)>>) -> Seq<Option<(Seq<char>, usize)>> {
    v.map_values(
        |t: Option<(String, usize)>|
            match t {
                Some(x) => Some((x.0@, x.1)),
                None => None,
            },
    )
}

/// Writes the key `var_idx` of a classical element.
fn element_key(var: &String, idx: usize) -> (s: String)
    ensures
        s@ == var@ + "_"@ + decimal_text(idx as nat),
{
    let mut out = chars_of(var.as_str());
    push_text(&mut out, "_");
    append_chars(&mut out, &decimal_chars(idx as u64));
    string_from_chars(&out)
}

impl PHIREngine {
    /// Well-formedness: the maps are well formed and the position is within the program.
    pub closed spec fn wf(&self) -> bool {
        match self.program {
            Some(p) => self.current_op <= p.ops@.len(),
            None => true,
        }
    }

    /// The operations of the program (none without a program).
    pub closed spec fn ops(&self) -> Seq<OpView> {
        match self.program {
            Some(p) => ops_view(p.ops@),
            None => Seq::empty(),
        }
    }

    /// Whether the engine has a program.
    pub closed spec fn has_program(&self) -> bool {
        self.program is Some
    }

    /// The state of the run.
    pub closed spec fn state(&self) -> PhirState {
        PhirState {
            current: self.current_op as nat,
            pending: commands_spec(self.pending_commands@),
            qvars: self.quantum_variables.map_view(),
            cvars: self.classical_variables.map_view(),
            targets: targets_view(self.measurement_targets@),
        }
    }

    /// The number of measurement outcomes handed to the engine so far.
    pub closed spec fn measured(&self) -> nat {
        self.measurements_seen as nat
    }

    /// The measurement outcomes recorded, by key.
    pub closed spec fn results(&self) -> Map<Seq<char>, Seq<u32>> {
        self.measurement_results.map_view()
    }

    /// The recorded outcomes, in key order.
    pub closed spec fn result_entries(&self) -> Seq<(Seq<char>, Seq<u32>)> {
        self.measurement_results.entry_views()
    }

    /// An engine without a program.
    pub fn empty() -> (e: Self)
        ensures
            e.wf(),
            !e.has_program(),
            e.state() == (PhirState {
                current: 0,
                pending: Seq::empty(),
                qvars: Map::empty(),
                cvars: Map::empty(),
                targets: Seq::empty(),
            }),
            e.results() == Map::<Seq<char>, Seq<u32>>::empty(),
            e.measured() == 0,
    {
        let e = PHIREngine {
            program: None,
            current_op: 0,
            measurement_results: TextMap::new(),
            pending_commands: Vec::new(),
            quantum_variables: TextMap::new(),
            classical_variables: TextMap::new(),
            measurement_targets: Vec::new(),
            measurements_seen: 0,
        };
        proof {
            assert(commands_spec(e.pending_commands@) =~= Seq::<(GateType, Seq<usize>)>::empty());
            assert(targets_view(e.measurement_targets@) =~= Seq::<Option<(Seq<char>, usize)>>::empty());
        }
        e
    }

    /// An engine for a program, which must be in the `PHIR/JSON` format, version `0.1.0`.
    pub fn from_program(program: PHIRProgram) -> (r: Result<Self, String>)
        ensures
            program.format@ != "PHIR/JSON"@ ==> (r matches Err(m) && m@
                == "Invalid format: expected PHIR/JSON"@),
            program.format@ == "PHIR/JSON"@ && program.version@ != "0.1.0"@ ==> (r matches Err(m)
                && m@ == "Unsupported PHIR version: "@ + program.version@),
            program.format@ == "PHIR/JSON"@ && program.version@ == "0.1.0"@ ==> (r matches Ok(e)
                && e.wf() && e.has_program() && e.ops() == ops_view(program.ops@) && e.state()
                == (PhirState {
                current: 0,
                pending: Seq::empty(),
                qvars: Map::empty(),
                cvars: Map::empty(),
                targets: Seq::empty(),
            }) && e.results() == Map::<Seq<char>, Seq<u32>>::empty() && e.measured() == 0),
    {
        if !word_is(&program.format, "PHIR/JSON") {
            return Err("Invalid format: expected PHIR/JSON".to_string());
        }
        if !word_is(&program.version, "0.1.0") {
            return Err(join_text("Unsupported PHIR version: ", &program.version));
        }
        let mut e = Self::empty();
        e.program = Some(program);
        Ok(e)
    }

    /// Whether running every operation of the program is defined (see `ops_sound`).
    pub fn ops_are_sound(&self) -> (b: bool)
        ensures
            b == ops_sound(self.ops()),
    {
        match &self.program {
            None => {
                proof {
                    assert(ops_sound(self.ops()));
                }
                true
            },
            Some(p) => {
                let ops = &p.ops;
                let ghost v = ops_view(ops@);
                let mut k: usize = 0;
                while k < ops.len()
                    invariant
                        k <= ops@.len(),
                        v == ops_view(ops@),
                        v == self.ops(),
                        forall|i: int| 0 <= i < k ==> op_sound(#[trigger] v[i]),
                    decreases ops@.len() - k,
                {
                    if !op_is_sound(&ops[k]) {
                        proof {
                            assert(v[k as int] == op_view(ops@[k as int]));
                        }
                        return false;
                    }
                    k = k + 1;
                }
                true
            },
        }
    }

    /// Records the next measurement outcome. The `n`-th outcome handed to the engine
    /// belongs to the `n`-th measurement issued, and is recorded under the classical element
    /// that measurement writes to, as `var_idx` (`m_0` for `m[0]`); a measurement that
    /// names no element is recorded under `measurement_n`.
    pub fn handle_measurement(&mut self, measurement: u32) -> (r: Result<(), QueueError>)
        requires
            old(self).wf(),
        ensures
            r is Ok,
            final(self).wf(),
            final(self).results() == old(self).results().insert(
                outcome_key(old(self).state().targets, old(self).measured()),
                seq![measurement],
            ),
            final(self).measured() == if old(self).measured() < usize::MAX {
                old(self).measured() + 1
            } else {
                old(self).measured()
            },
            final(self).state() == old(self).state(),
            final(self).ops() == old(self).ops(),
    {
        let n = self.measurements_seen;
        let ghost tv = targets_view(self.measurement_targets@);
        let key = if n < self.measurement_targets.len() {
            match &self.measurement_targets[n] {
                Some(t) => {
                    proof {
                        assert(tv[n as int] == Some((t.0@, t.1)));
                    }
                    element_key(&t.0, t.1)
                },
                None => {
                    proof {
                        assert(tv[n as int] is None);
                    }
                    measurement_key_text(n)
                },
            }
        } else {
            measurement_key_text(n)
        };
        let mut v: Vec<u32> = Vec::new();
        v.push(measurement);
        proof {
            assert(v@ =~= seq![measurement]);
        }
        self.measurement_results.insert(key, v);
        if self.measurements_seen < usize::MAX {
            self.measurements_seen = self.measurements_seen + 1;
        }
        Ok(())
    }

    /// The first outcome of each recorded key, in a shot result.
    pub fn get_results(&self) -> (r: Result<ShotResult, QueueError>)
        requires
            self.wf(),
        ensures
            r matches Ok(s) && s.measurements.map_view()
                == first_outcomes(self.result_entries()),
    {
        let entries = self.measurement_results.entries();
        let ghost e = self.result_entries();
        let mut results = ShotResult::new();
        let mut k: usize = 0;
        while k < entries.len()
            invariant
                k <= entries@.len() == e.len(),
                e == entries@.map_values(|x: (String, Vec<u32>)| (x.0@, x.1@)),
                results.measurements.map_view() == first_outcomes(e.take(k as int)),
            decreases entries@.len() - k,
        {
            proof {
                assert(e.take(k + 1).drop_last() =~= e.take(k as int));
                assert(e.take(k + 1).last() == (entries@[k as int].0@, entries@[k as int].1@));
            }
            if entries[k].1.len() > 0 {
                let key = entries[k].0.clone();
                results.measurements.insert(key, entries[k].1[0]);
            }
            k = k + 1;
        }
        proof {
            assert(e.take(k as int) =~= e);
        }
        Ok(results)
    }

    /// Runs the program as `process_program` does, but first checks each operation it
    /// reaches: `None` where it reaches one that does not hold what it reads (see
    /// `run_sound`), before running it.
    pub fn try_process_program(&mut self) -> (r: Option<Result<Vec<QuantumCommand>, QueueError>>)
        requires
            old(self).wf(),
        ensures
            r is None <==> (old(self).has_program() && !run_sound(
                old(self).ops(),
                old(self).state(),
                0,
            )),
            r is Some ==> final(self).wf(),
            r is Some ==> final(self).ops() == old(self).ops(),
            r is Some ==> final(self).results() == old(self).results(),
            r is Some ==> final(self).has_program() == old(self).has_program(),
            r matches Some(r) ==> (old(self).has_program() ==> ({
                let (s, res) = phir_run(old(self).ops(), old(self).state(), 0);
                &&& final(self).state() == s
                &&& match r {
                    Ok(v) => res == Ok::<Seq<(GateType, Seq<usize>)>, Seq<char>>(
                        commands_spec(v@),
                    ),
                    Err(e) => e matches QueueError::OperationError(m) && res == Err::<
                        Seq<(GateType, Seq<usize>)>,
                        Seq<char>,
                    >(m@),
                }
            })),
            r matches Some(r) ==> (!old(self).has_program() ==> (r matches Ok(v) && commands_spec(
                v@,
            ) == old(self).state().pending && final(self).state().pending == Seq::<
                (GateType, Seq<usize>),
            >::empty())),
    {
        let ghost ops = self.ops();
        let ghost start = self.state();
        let mut count: usize = 0;
        loop
            invariant
                self.wf(),
                ops == self.ops(),
                ops == old(self).ops(),
                start == old(self).state(),
                self.has_program() ==> run_sound(ops, start, 0) == run_sound(
                    ops,
                    self.state(),
                    count as nat,
                ),
                self.results() == old(self).results(),
                self.has_program() == old(self).has_program(),
                self.has_program() ==> phir_run(ops, start, 0) == phir_run(
                    ops,
                    self.state(),
                    count as nat,
                ),
                !self.has_program() ==> self.state() == start,
                count <= self.current_op,
            decreases ops.len() - self.current_op,
        {
            let n = match &self.program {
                Some(p) => p.ops.len(),
                None => 0,
            };
            if self.program.is_none() || self.current_op >= n {
                let mut out: Vec<QuantumCommand> = Vec::new();
                std::mem::swap(&mut out, &mut self.pending_commands);
                proof {
                    assert(commands_spec(self.pending_commands@) =~= Seq::<
                        (GateType, Seq<usize>),
                    >::empty());
                }
                return Some(Ok(out));
            }
            let sound = match &self.program {
                Some(p) => {
                    proof {
                        assert(ops[self.current_op as int] == op_view(p.ops@[self.current_op as int]));
                    }
                    op_is_sound(&p.ops[self.current_op])
                },
                None => true,
            };
            if !sound {
                return None;
            }
            let ghost s = self.state();
            let outcome = self.step(count);
            match outcome {
                Err(m) => {
                    return Some(Err(QueueError::OperationError(m)));
                },
                Ok((ret, c)) => {
                    count = c;
                    self.current_op = self.current_op + 1;
                    if ret && self.pending_commands.len() > 0 {
                        let mut out: Vec<QuantumCommand> = Vec::new();
                        std::mem::swap(&mut out, &mut self.pending_commands);
                        proof {
                            assert(commands_spec(self.pending_commands@) =~= Seq::<
                                (GateType, Seq<usize>),
                            >::empty());
                        }
                        return Some(Ok(out));
                    }
                },
            }
        }
    }

    /// Runs the program until a batch of commands is due (see `phir_run`): variable
    /// definitions declare variables; measurements are issued with result ids counted
    /// from 0 in this run; other quantum operations are checked and queued; a `Result`
    /// that is not followed by another hands out the queued batch. At the end of the
    /// program the rest of the queue is handed out. Every operation the run reaches must
    /// hold what it reads (see `run_sound`).
    pub fn process_program(&mut self) -> (r: Result<Vec<QuantumCommand>, QueueError>)
        requires
            old(self).wf(),
            old(self).has_program() ==> run_sound(old(self).ops(), old(self).state(), 0),
        ensures
            final(self).wf(),
            final(self).ops() == old(self).ops(),
            final(self).results() == old(self).results(),
            final(self).has_program() == old(self).has_program(),
            old(self).has_program() ==> ({
                let (s, res) = phir_run(old(self).ops(), old(self).state(), 0);
                &&& final(self).state() == s
                &&& match r {
                    Ok(v) => res == Ok::<Seq<(GateType, Seq<usize>)>, Seq<char>>(
                        commands_spec(v@),
                    ),
                    Err(e) => e matches QueueError::OperationError(m) && res == Err::<
                        Seq<(GateType, Seq<usize>)>,
                        Seq<char>,
                    >(m@),
                }
            }),
            !old(self).has_program() ==> (r matches Ok(v) && commands_spec(v@) == old(self).state().pending
                && final(self).state().pending == Seq::<(GateType, Seq<usize>)>::empty()),
    {
        match self.try_process_program() {
            Some(r) => r,
            None => {
                proof {
                    assert(false);
                }
                Ok(Vec::new())
            },
        }
    }

    /// Runs the operation at the current position (see `phir_step`), leaving the
    /// position as it is.
    fn step(&mut self, count: usize) -> (r: Result<(bool, usize), String>)
        requires
            old(self).wf(),
            old(self).has_program(),
            old(self).current_op < old(self).ops().len(),
            op_sound(old(self).ops()[old(self).current_op as int]),
            count <= old(self).current_op,
        ensures
            final(self).wf(),
            final(self).ops() == old(self).ops(),
            final(self).results() == old(self).results(),
            final(self).has_program(),
            final(self).current_op == old(self).current_op,
            match r {
                Ok((ret, c)) => phir_step(old(self).ops(), old(self).state(), count as nat)
                    == StepOutcome::Next(final(self).state(), ret, c as nat) && c <= count + 1,
                Err(m) => phir_step(old(self).ops(), old(self).state(), count as nat)
                    == StepOutcome::Failed(m@) && final(self).state() == old(self).state(),
            },
    {
        let ghost ops = self.ops();
        let ghost s = self.state();
        let cur = self.current_op;
        let program = match &self.program {
            Some(p) => p,
            None => {
                return Err(String::new());
            },
        };
        let len = program.ops.len();
        let op = &program.ops[cur];
        proof {
            assert(ops[cur as int] == op_view(*op));
            assert(op_sound(ops[cur as int]));
        }
        match op {
            Operation::VariableDefinition { data, data_type, variable, size } => {
                if word_is(data, "qvar_define") && word_is(data_type, "qubits") {
                    let v = variable.clone();
                    let sz = *size;
                    self.quantum_variables.insert(v, sz);
                } else if word_is(data, "cvar_define") {
                    let v = variable.clone();
                    let t = data_type.clone();
                    let sz = *size;
                    self.classical_variables.insert(v, (t, sz));
                }
                Ok((false, count))
            },
            Operation::QuantumOp { qop, angles, args, outputs } => {
                if word_is(qop, "Measure") {
                    proof {
                        assert(args_view(args@)[0].1 == args@[0].1);
                    }
                    let c = command(GateType::Measure { result_id: count }, args[0].1, None);
                    self.pending_commands.push(c);
                    let target = if outputs.len() > 0 {
                        proof {
                            assert(args_view(outputs@)[0] == (outputs@[0].0@, outputs@[0].1));
                        }
                        Some((outputs[0].0.clone(), outputs[0].1))
                    } else {
                        None
                    };
                    let ghost old_targets = self.measurement_targets@;
                    self.measurement_targets.push(target);
                    proof {
                        assert(commands_spec(self.pending_commands@) =~= s.pending.push(
                            command_spec(c),
                        ));
                        assert(targets_view(self.measurement_targets@) =~= targets_view(
                            old_targets,
                        ).push(measure_target(args_view(outputs@))));
                    }
                    Ok((false, count + 1))
                } else {
                    match check_all(&self.quantum_variables, &self.classical_variables, args) {
                        Err(m) => {
                            return Err(m);
                        },
                        Ok(()) => {},
                    }
                    match quantum_command(qop, angles, args, 0) {
                        Err(m) => Err(m),
                        Ok(c) => {
                            self.pending_commands.push(c);
                            proof {
                                assert(commands_spec(self.pending_commands@) =~= s.pending.push(
                                    command_spec(c),
                                ));
                            }
                            Ok((false, count))
                        },
                    }
                }
            },
            Operation::ClassicalOp { cop, args, outputs } => {
                let is_result = word_is(cop, "Result");
                let mut all: Vec<(String, usize)> = Vec::new();
                let mut k: usize = 0;
                while k < args.len()
                    invariant
                        k <= args@.len(),
                        args_view(all@) == args_view(args@).take(k as int),
                    decreases args@.len() - k,
                {
                    let key = args[k].0.clone();
                    let ghost before = all@;
                    all.push((key, args[k].1));
                    proof {
                        assert(all@ == before.push((key, args@[k as int].1)));
                        assert(args_view(all@) =~= args_view(before).push((args@[k as int].0@, args@[k as int].1)));
                        assert(args_view(args@).take(k + 1) =~= args_view(args@).take(k as int).push((args@[k as int].0@, args@[k as int].1)));
                    }
                    k = k + 1;
                    proof {
                        assert(args_view(all@) =~= args_view(args@).take(k as int));
                    }
                }
                proof {
                    assert(args_view(args@).take(k as int) =~= args_view(args@));
                }
                if !is_result {
                    let mut j: usize = 0;
                    while j < outputs.len()
                        invariant
                            j <= outputs@.len(),
                            k == args@.len(),
                            args_view(all@) == args_view(args@).take(k as int) + args_view(
                                outputs@,
                            ).take(j as int),
                        decreases outputs@.len() - j,
                    {
                        let key = outputs[j].0.clone();
                        let ghost before = all@;
                        all.push((key, outputs[j].1));
                        proof {
                            assert(all@ == before.push((key, outputs@[j as int].1)));
                            assert(args_view(all@) =~= args_view(before).push((outputs@[j as int].0@, outputs@[j as int].1)));
                            assert(args_view(outputs@).take(j + 1) =~= args_view(outputs@).take(j as int).push((outputs@[j as int].0@, outputs@[j as int].1)));
                        }
                        j = j + 1;
                        proof {
                            assert(args_view(all@) =~= args_view(args@).take(k as int) + args_view(
                                outputs@,
                            ).take(j as int));
                        }
                    }
                    proof {
                        assert(args_view(all@) =~= args_view(args@) + args_view(outputs@));
                    }
                }
                match check_all(&self.quantum_variables, &self.classical_variables, &all) {
                    Err(m) => {
                        return Err(m);
                    },
                    Ok(()) => {},
                }
                let more_results = if len - cur > 1 {
                    match &program.ops[cur + 1] {
                        Operation::ClassicalOp { cop: next_cop, .. } => word_is(next_cop, "Result"),
                        _ => false,
                    }
                } else {
                    false
                };
                proof {
                    if cur + 1 < program.ops@.len() {
                        assert(ops[cur + 1] == op_view(program.ops@[cur + 1]));
                    }
                }
                Ok((is_result && !more_results, count))
            },
        }
    }
}

impl Default for PHIREngine {
    fn default() -> (e: Self)
        ensures
            e.wf(),
            !e.has_program(),
    {
        Self::empty()
    }
}

/// Whether running an operation is defined (see `op_sound`).
fn op_is_sound(op: &Operation) -> (b: bool)
    ensures
        b == op_sound(op_view(*op)),
{
    match op {
        Operation::VariableDefinition { .. } => true,
        Operation::QuantumOp { qop, angles, args, .. } => {
            let needs_one = word_is(qop, "Measure") || word_is(qop, "H") || word_is(qop, "RZ")
                || word_is(qop, "R1XY");
            let a = if needs_one {
                args.len() >= 1
            } else {
                true
            };
            let b = if word_is(qop, "SZZ") {
                args.len() >= 2
            } else {
                true
            };
            let c = if word_is(qop, "RZ") {
                match angles {
                    Some(x) => x.0.len() >= 1,
                    None => true,
                }
            } else {
                true
            };
            let d = if word_is(qop, "R1XY") {
                match angles {
                    Some(x) => x.0.len() >= 2,
                    None => true,
                }
            } else {
                true
            };
            a && b && c && d
        },
        Operation::ClassicalOp { cop, args, outputs } => {
            if word_is(cop, "Result") {
                args.len() >= 1 && outputs.len() >= 1
            } else {
                true
            }
        },
    }
}

/// The first recorded outcome of each key that has one.
pub open spec fn first_outcomes(e: Seq<(Seq<char>, Seq<u32>)>) -> Map<Seq<char>, u32>
    decreases e.len(),
{
    if e.len() == 0 {
        Map::empty()
    } else if e.last().1.len() > 0 {
        first_outcomes(e.drop_last()).insert(e.last().0, e.last().1[0])
    } else {
        first_outcomes(e.drop_last())
    }
}

/// Whether an operation is a measurement of at least one qubit.
pub open spec fn is_measure_op(op: OpView) -> bool {
    op matches OpView::Quantum { qop, args, .. } && qop == "Measure"@ && args.len() >= 1
}

/// The first qubit element an operation names (0 for one that names none).
pub open spec fn first_qubit(op: OpView) -> usize {
    match op {
        OpView::Quantum { args, .. } => args[0].1,
        _ => 0,
    }
}

/// The commands of the measurements `ops[from..to]`, numbered from 0 in order.
pub open spec fn measure_commands(ops: Seq<OpView>, from: int, to: int) -> Seq<
    (GateType, Seq<usize>),
> {
    Seq::new(
        (to - from) as nat,
        |j: int| (GateType::Measure { result_id: j as usize }, seq![first_qubit(ops[from + j])]),
    )
}

/// Running measurements from position `s.current` on, with the earlier ones pending.
proof fn lemma_measure_tail(ops: Seq<OpView>, s: PhirState, count: nat)
    requires
        1 <= s.current <= ops.len(),
        forall|i: int| 1 <= i < ops.len() ==> is_measure_op(#[trigger] ops[i]),
        s.pending == measure_commands(ops, 1, s.current as int),
        count == s.current - 1,
    ensures
        phir_run(ops, s, count).1 == Ok::<Seq<(GateType, Seq<usize>)>, Seq<char>>(
            measure_commands(ops, 1, ops.len() as int),
        ),
        phir_run(ops, s, count).0.current == ops.len(),
        phir_run(ops, s, count).0.pending == Seq::<(GateType, Seq<usize>)>::empty(),
    decreases ops.len() - s.current,
{
    if s.current < ops.len() {
        let op = ops[s.current as int];
        assert(is_measure_op(op));
        let c = (GateType::Measure { result_id: count as usize }, seq![first_qubit(op)]);
        let s2 = PhirState {
            current: s.current + 1,
            pending: s.pending.push(c),
            targets: s.targets.push(
                match op {
                    OpView::Quantum { outputs, .. } => measure_target(outputs),
                    _ => None,
                },
            ),
            ..s
        };
        assert(phir_step(ops, s, count) == StepOutcome::Next(
            PhirState { current: s.current, ..s2 },
            false,
            count + 1,
        ));
        assert(s2.pending =~= measure_commands(ops, 1, s2.current as int));
        lemma_measure_tail(ops, s2, count + 1);
    } else {
        assert(s.pending =~= measure_commands(ops, 1, ops.len() as int));
    }
}

/// A program that declares a variable and then measures qubits one by one hands out, on
/// its first run, one measurement command per measurement, in program order and numbered
/// from 0, each on the qubit its operation names; a second run from where the first
/// ended hands out nothing.
pub proof fn lemma_measurement_program(ops: Seq<OpView>, s: PhirState)
    requires
        ops.len() >= 1,
        ops[0] is VarDef,
        forall|i: int| 1 <= i < ops.len() ==> is_measure_op(#[trigger] ops[i]),
        s.current == 0,
        s.pending == Seq::<(GateType, Seq<usize>)>::empty(),
    ensures
        phir_run(ops, s, 0).1 == Ok::<Seq<(GateType, Seq<usize>)>, Seq<char>>(
            measure_commands(ops, 1, ops.len() as int),
        ),
        phir_run(ops, phir_run(ops, s, 0).0, 0).1 == Ok::<Seq<(GateType, Seq<usize>)>, Seq<char>>(
            Seq::empty(),
        ),
{
    let (s1, ret, c1) = match phir_step(ops, s, 0) {
        StepOutcome::Next(s1, ret, c1) => (s1, ret, c1),
        StepOutcome::Failed(_) => (s, false, 0),
    };
    assert(phir_step(ops, s, 0) is Next);
    assert(!ret && c1 == 0 && s1.current == 0 && s1.pending == s.pending);
    let s2 = PhirState { current: 1, ..s1 };
    assert(s2.pending =~= measure_commands(ops, 1, 1));
    lemma_measure_tail(ops, s2, 0);
}

} // verus!
