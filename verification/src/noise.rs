use crate::types::{GateType, QuantumCommand};
use vstd::prelude::*;

verus! {

/// The bits of the binary64 number nearest to π.
pub const PI_BITS: u64 = 0x4009_21fb_5444_2d18u64;

/// A Pauli error that a noise channel injects on a qubit.
#[derive(Debug, Clone, Copy, PartialEq, Eq, Structural)]
pub enum PauliError {
    X,
    Y,
    Z,
}

/// A command taken by its view: its gate and its qubits.
pub open spec fn command_spec(c: QuantumCommand) -> (GateType, Seq<usize>) {
    (c.gate, c.qubits@)
}

/// A list of commands taken by their views.
pub open spec fn commands_spec(v: Seq<QuantumCommand>) -> Seq<(GateType, Seq<usize>)> {
    v.map_values(|c: QuantumCommand| command_spec(c))
}

/// The gates that apply the error `e` to `qubit`, in order, each equal to the Pauli up to
/// a global phase: `X` as `H RZ(π) H` (`H Z H = X`), `Y` as `RZ(π) H RZ(π) H` (`X·Z ∝ Y`),
/// `Z` as `RZ(π)`.
pub open spec fn error_gates(e: PauliError, qubit: usize) -> Seq<(GateType, Seq<usize>)> {
    let rz_pi = (GateType::RZ { theta: PI_BITS }, seq![qubit]);
    let h = (GateType::H, seq![qubit]);
    match e {
        PauliError::X => seq![h, rz_pi, h],
        PauliError::Y => seq![rz_pi, h, rz_pi, h],
        PauliError::Z => seq![rz_pi],
    }
}

/// The gates injected after a command: for each of its qubits in order, those of the
/// error drawn for it, if any.
pub open spec fn injected_gates(qubits: Seq<usize>, errors: Seq<Option<PauliError>>) -> Seq<
    (GateType, Seq<usize>),
>
    decreases qubits.len(),
{
    if qubits.len() == 0 {
        Seq::empty()
    } else {
        injected_gates(qubits.drop_last(), errors.drop_last()) + match errors.last() {
            Some(e) => error_gates(e, qubits.last()),
            None => Seq::empty(),
        }
    }
}

/// The commands with noise: each command, followed by the gates of the errors drawn for
/// its qubits.
pub open spec fn noisy_spec(
    cmds: Seq<(GateType, Seq<usize>)>,
    errors: Seq<Seq<Option<PauliError>>>,
) -> Seq<(GateType, Seq<usize>)>
    decreases cmds.len(),
{
    if cmds.len() == 0 {
        Seq::empty()
    } else {
        noisy_spec(cmds.drop_last(), errors.drop_last()) + seq![cmds.last()] + injected_gates(
            cmds.last().1,
            errors.last(),
        )
    }
}

/// A command on one qubit.
fn single(gate: GateType, qubit: usize) -> (c: QuantumCommand)
    ensures
        command_spec(c) == (gate, seq![qubit]),
{
    let mut qubits: Vec<usize> = Vec::new();
    qubits.push(qubit);
    proof {
        assert(qubits@ =~= seq![qubit]);
    }
    QuantumCommand { gate, qubits }
}

/// Appends the gates of the error `e` on `qubit` (see `error_gates`).
fn push_error_gates(out: &mut Vec<QuantumCommand>, e: PauliError, qubit: usize)
    ensures
        commands_spec(final(out)@) == commands_spec(old(out)@) + error_gates(e, qubit),
{
    let ghost start = commands_spec(out@);
    match e {
        PauliError::X => {
            out.push(single(GateType::H, qubit));
            out.push(single(GateType::RZ { theta: PI_BITS }, qubit));
            out.push(single(GateType::H, qubit));
        },
        PauliError::Y => {
            out.push(single(GateType::RZ { theta: PI_BITS }, qubit));
            out.push(single(GateType::H, qubit));
            out.push(single(GateType::RZ { theta: PI_BITS }, qubit));
            out.push(single(GateType::H, qubit));
        },
        PauliError::Z => {
            out.push(single(GateType::RZ { theta: PI_BITS }, qubit));
        },
    }
    proof {
        assert(commands_spec(out@) =~= start + error_gates(e, qubit));
    }
}

/// The gates of a Pauli X on `qubit`, up to a global phase: `H RZ(π) H`.
pub fn x_gates(qubit: usize) -> (v: Vec<QuantumCommand>)
    ensures
        commands_spec(v@) == error_gates(PauliError::X, qubit),
{
    let mut v: Vec<QuantumCommand> = Vec::new();
    proof {
        assert(commands_spec(v@) =~= Seq::<(GateType, Seq<usize>)>::empty());
    }
    push_error_gates(&mut v, PauliError::X, qubit);
    proof {
        assert(Seq::<(GateType, Seq<usize>)>::empty() + error_gates(PauliError::X, qubit)
            =~= error_gates(PauliError::X, qubit));
    }
    v
}

/// The gates of a Pauli Y on `qubit`, up to a global phase: `RZ(π) H RZ(π) H`.
pub fn y_gates(qubit: usize) -> (v: Vec<QuantumCommand>)
    ensures
        commands_spec(v@) == error_gates(PauliError::Y, qubit),
{
    let mut v: Vec<QuantumCommand> = Vec::new();
    proof {
        assert(commands_spec(v@) =~= Seq::<(GateType, Seq<usize>)>::empty());
    }
    push_error_gates(&mut v, PauliError::Y, qubit);
    proof {
        assert(Seq::<(GateType, Seq<usize>)>::empty() + error_gates(PauliError::Y, qubit)
            =~= error_gates(PauliError::Y, qubit));
    }
    v
}

/// The Pauli Z gate on `qubit`: `RZ(π)`.
pub fn z_gate(qubit: usize) -> (c: QuantumCommand)
    ensures
        seq![command_spec(c)] == error_gates(PauliError::Z, qubit),
{
    single(GateType::RZ { theta: PI_BITS }, qubit)
}

/// Copies a command.
fn copy_command(c: &QuantumCommand) -> (r: QuantumCommand)
    ensures
        command_spec(r) == command_spec(*c),
{
    let mut qubits: Vec<usize> = Vec::new();
    let mut k: usize = 0;
    while k < c.qubits.len()
        invariant
            k <= c.qubits@.len(),
            qubits@ == c.qubits@.take(k as int),
        decreases c.qubits@.len() - k,
    {
        qubits.push(c.qubits[k]);
        k = k + 1;
        proof {
            assert(qubits@ =~= c.qubits@.take(k as int));
        }
    }
    proof {
        assert(c.qubits@.take(k as int) =~= c.qubits@);
    }
    QuantumCommand { gate: c.gate, qubits }
}

/// Inserts noise into a list of commands, given the error drawn for each qubit of each
/// command (`None` where no error was drawn): each command is kept, followed by the gates
/// of its errors, qubit by qubit (see `noisy_spec`).
pub fn apply_noise_with(
    commands: &Vec<QuantumCommand>,
    errors: &Vec<Vec<Option<PauliError>>>,
) -> (r: Vec<QuantumCommand>)
    requires
        errors@.len() == commands@.len(),
        forall|i: int|
            0 <= i < commands@.len() ==> (#[trigger] errors@[i])@.len()
                == commands@[i].qubits@.len(),
    ensures
        commands_spec(r@) == noisy_spec(
            commands_spec(commands@),
            errors@.map_values(|e: Vec<Option<PauliError>>| e@),
        ),
{
    let ghost cs = commands_spec(commands@);
    let ghost es = errors@.map_values(|e: Vec<Option<PauliError>>| e@);
    let mut out: Vec<QuantumCommand> = Vec::new();
    let mut i: usize = 0;
    proof {
        assert(commands_spec(out@) =~= noisy_spec(cs.take(0), es.take(0)));
    }
    while i < commands.len()
        invariant
            i <= commands@.len() == errors@.len(),
            cs == commands_spec(commands@),
            es == errors@.map_values(|e: Vec<Option<PauliError>>| e@),
            forall|k: int|
                0 <= k < commands@.len() ==> (#[trigger] errors@[k])@.len()
                    == commands@[k].qubits@.len(),
            commands_spec(out@) == noisy_spec(cs.take(i as int), es.take(i as int)),
        decreases commands@.len() - i,
    {
        let cmd = &commands[i];
        let errs = &errors[i];
        let ghost before = commands_spec(out@);
        out.push(copy_command(cmd));
        proof {
            assert(commands_spec(out@) =~= before + seq![cs[i as int]]);
        }
        let ghost mid = commands_spec(out@);
        let mut j: usize = 0;
        proof {
            assert(injected_gates(cmd.qubits@.take(0), errs@.take(0)) =~= Seq::<
                (GateType, Seq<usize>),
            >::empty());
            assert(mid + Seq::<(GateType, Seq<usize>)>::empty() =~= mid);
        }
        while j < cmd.qubits.len()
            invariant
                j <= cmd.qubits@.len() == errs@.len(),
                commands_spec(out@) == mid + injected_gates(
                    cmd.qubits@.take(j as int),
                    errs@.take(j as int),
                ),
            decreases cmd.qubits@.len() - j,
        {
            let ghost pre = commands_spec(out@);
            match errs[j] {
                Some(e) => {
                    push_error_gates(&mut out, e, cmd.qubits[j]);
                },
                None => {},
            }
            proof {
                let qs = cmd.qubits@.take(j + 1);
                let ers = errs@.take(j + 1);
                assert(qs.drop_last() =~= cmd.qubits@.take(j as int));
                assert(ers.drop_last() =~= errs@.take(j as int));
                assert(qs.last() == cmd.qubits@[j as int]);
                assert(ers.last() == errs@[j as int]);
                assert(commands_spec(out@) =~= mid + injected_gates(qs, ers));
            }
            j = j + 1;
        }
        proof {
            assert(cmd.qubits@.take(j as int) =~= cmd.qubits@);
            assert(errs@.take(j as int) =~= errs@);
            assert(cs.take(i + 1).drop_last() =~= cs.take(i as int));
            assert(es.take(i + 1).drop_last() =~= es.take(i as int));
            assert(cs.take(i + 1).last() == cs[i as int]);
            assert(es.take(i + 1).last() == errs@);
            assert(cs[i as int].1 == cmd.qubits@);
            assert(commands_spec(out@) =~= noisy_spec(cs.take(i + 1), es.take(i + 1)));
        }
        i = i + 1;
    }
    proof {
        assert(cs.take(i as int) =~= cs);
        assert(es.take(i as int) =~= es);
    }
    out
}

/// Where no error is drawn for any qubit, no gate is injected.
pub proof fn lemma_no_error_no_gates(qubits: Seq<usize>, errors: Seq<Option<PauliError>>)
    requires
        errors.len() == qubits.len(),
        forall|j: int| 0 <= j < errors.len() ==> (#[trigger] errors[j]) is None,
    ensures
        injected_gates(qubits, errors) == Seq::<(GateType, Seq<usize>)>::empty(),
    decreases qubits.len(),
{
    if qubits.len() > 0 {
        let e0 = errors.drop_last();
        assert forall|j: int| 0 <= j < e0.len() implies (#[trigger] e0[j]) is None by {
            assert(e0[j] == errors[j]);
        }
        lemma_no_error_no_gates(qubits.drop_last(), e0);
        assert(errors.last() is None);
        assert(injected_gates(qubits, errors) =~= Seq::<(GateType, Seq<usize>)>::empty());
    }
}

/// Noise with no error drawn leaves the commands exactly as they were.
pub proof fn lemma_noise_free_run(
    cmds: Seq<(GateType, Seq<usize>)>,
    errors: Seq<Seq<Option<PauliError>>>,
)
    requires
        errors.len() == cmds.len(),
        forall|i: int| 0 <= i < cmds.len() ==> (#[trigger] errors[i]).len() == cmds[i].1.len(),
        forall|i: int, j: int|
            0 <= i < errors.len() && 0 <= j < errors[i].len() ==> (#[trigger] errors[i][j]) is None,
    ensures
        noisy_spec(cmds, errors) == cmds,
    decreases cmds.len(),
{
    if cmds.len() > 0 {
        let c0 = cmds.drop_last();
        let e0 = errors.drop_last();
        assert forall|i: int| 0 <= i < c0.len() implies (#[trigger] e0[i]).len() == c0[i].1.len() by {
            assert(e0[i] == errors[i] && c0[i] == cmds[i]);
        }
        assert forall|i: int, j: int| 0 <= i < e0.len() && 0 <= j < e0[i].len() implies (
        #[trigger] e0[i][j]) is None by {
            assert(e0[i] == errors[i]);
        }
        lemma_noise_free_run(c0, e0);
        let last = errors.last();
        assert forall|j: int| 0 <= j < last.len() implies (#[trigger] last[j]) is None by {
            assert(errors[errors.len() - 1][j] is None);
        }
        assert(errors[errors.len() - 1].len() == cmds[cmds.len() - 1].1.len());
        lemma_no_error_no_gates(cmds.last().1, last);
        assert(noisy_spec(cmds, errors) =~= cmds);
    }
}

} // verus!
