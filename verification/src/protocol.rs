use crate::engines::{gate_arity, queue_error_text, QueueError};
use crate::noise::command_spec;
use crate::text::{
    append_chars, chars_from, chars_of, decimal_chars, decimal_text, parse_u32, split_whitespace,
    string_from_chars, trim, trim_chars, u32_error_text, u32_text_value, words,
};
use crate::types::{join_text, measurement_prefix, word_is, GateType, QuantumCommand, ShotResult};
use vstd::prelude::*;

verus! {

/// Appends the characters of `s` to `out`.
fn push_text(out: &mut Vec<char>, s: &str)
    ensures
        final(out)@ == old(out)@ + s@,
{
    let w = chars_of(s);
    append_chars(out, &w);
}

/// The decimal text of an index.
pub open spec fn index_text(n: usize) -> Seq<char> {
    decimal_text(n as nat)
}

/// How a command is written on a channel: `RZ theta q`, `R1XY phi theta q`, `SZZ q1 q2`,
/// `H q`, `CX control target` or `M q result_id`, where `phi` and `theta` are the texts
/// of the angles.
pub open spec fn command_text(c: (GateType, Seq<usize>), phi: Seq<char>, theta: Seq<char>) -> Seq<
    char,
> {
    match c.0 {
        GateType::RZ { .. } => "RZ "@ + theta + " "@ + index_text(c.1[0]),
        GateType::R1XY { .. } => "R1XY "@ + phi + " "@ + theta + " "@ + index_text(c.1[0]),
        GateType::SZZ => "SZZ "@ + index_text(c.1[0]) + " "@ + index_text(c.1[1]),
        GateType::H => "H "@ + index_text(c.1[0]),
        GateType::CX => "CX "@ + index_text(c.1[0]) + " "@ + index_text(c.1[1]),
        GateType::Measure { result_id } => "M "@ + index_text(c.1[0]) + " "@ + index_text(
            result_id,
        ),
    }
}

/// Appends the decimal text of an index.
fn push_index(out: &mut Vec<char>, n: usize)
    ensures
        final(out)@ == old(out)@ + index_text(n),
{
    let d = decimal_chars(n as u64);
    append_chars(out, &d);
}

/// Writes a command for a channel (see `command_text`); `phi` and `theta` are the texts
/// of its angles, used by the rotations.
pub fn format_command(cmd: &QuantumCommand, phi: &String, theta: &String) -> (s: String)
    requires
        cmd.qubits@.len() >= gate_arity(cmd.gate),
    ensures
        s@ == command_text(command_spec(*cmd), phi@, theta@),
{
    let mut out: Vec<char> = Vec::new();
    let ph = chars_of(phi.as_str());
    let th = chars_of(theta.as_str());
    match cmd.gate {
        GateType::RZ { .. } => {
            push_text(&mut out, "RZ ");
            append_chars(&mut out, &th);
            push_text(&mut out, " ");
            push_index(&mut out, cmd.qubits[0]);
        },
        GateType::R1XY { .. } => {
            push_text(&mut out, "R1XY ");
            append_chars(&mut out, &ph);
            push_text(&mut out, " ");
            append_chars(&mut out, &th);
            push_text(&mut out, " ");
            push_index(&mut out, cmd.qubits[0]);
        },
        GateType::SZZ => {
            push_text(&mut out, "SZZ ");
            push_index(&mut out, cmd.qubits[0]);
            push_text(&mut out, " ");
            push_index(&mut out, cmd.qubits[1]);
        },
        GateType::H => {
            push_text(&mut out, "H ");
            push_index(&mut out, cmd.qubits[0]);
        },
        GateType::CX => {
            push_text(&mut out, "CX ");
            push_index(&mut out, cmd.qubits[0]);
            push_text(&mut out, " ");
            push_index(&mut out, cmd.qubits[1]);
        },
        GateType::Measure { result_id } => {
            push_text(&mut out, "M ");
            push_index(&mut out, cmd.qubits[0]);
            push_text(&mut out, " ");
            push_index(&mut out, result_id);
        },
    }
    proof {
        assert(out@ =~= command_text(command_spec(*cmd), phi@, theta@));
    }
    string_from_chars(&out)
}

/// The `CMD` lines of a batch.
pub open spec fn command_lines(lines: Seq<Seq<char>>) -> Seq<char>
    decreases lines.len(),
{
    if lines.len() == 0 {
        Seq::empty()
    } else {
        command_lines(lines.drop_last()) + "CMD "@ + lines.last() + "\n"@
    }
}

/// How a batch of commands is sent: `FLUSH_BEGIN`, a `CMD` line per command, then
/// `FLUSH_END`, each on a line of its own.
pub open spec fn batch_text(lines: Seq<Seq<char>>) -> Seq<char> {
    "FLUSH_BEGIN\n"@ + command_lines(lines) + "FLUSH_END\n"@
}

/// Writes a batch of commands, given as their texts (see `batch_text`).
pub fn command_batch_text(lines: &Vec<String>) -> (s: String)
    ensures
        s@ == batch_text(lines@.map_values(|l: String| l@)),
{
    let ghost ls = lines@.map_values(|l: String| l@);
    let mut out: Vec<char> = Vec::new();
    push_text(&mut out, "FLUSH_BEGIN\n");
    let ghost head = out@;
    let mut k: usize = 0;
    proof {
        assert(head + command_lines(ls.take(0)) =~= head);
    }
    while k < lines.len()
        invariant
            k <= lines@.len(),
            ls == lines@.map_values(|l: String| l@),
            head == "FLUSH_BEGIN\n"@,
            out@ == head + command_lines(ls.take(k as int)),
        decreases lines@.len() - k,
    {
        push_text(&mut out, "CMD ");
        let l = chars_of(lines[k].as_str());
        append_chars(&mut out, &l);
        push_text(&mut out, "\n");
        proof {
            assert(ls.take(k + 1).drop_last() =~= ls.take(k as int));
            assert(ls.take(k + 1).last() == lines@[k as int]@);
            assert(out@ =~= head + command_lines(ls.take(k + 1)));
        }
        k = k + 1;
    }
    push_text(&mut out, "FLUSH_END\n");
    proof {
        assert(ls.take(k as int) =~= ls);
        assert(out@ =~= batch_text(ls));
    }
    string_from_chars(&out)
}

/// Reads a measurement sent back on a channel: the line, trimmed, as a `u32`; otherwise
/// an operation error that quotes the parse error.
pub fn parse_measurement(line: &str) -> (r: Result<u32, QueueError>)
    ensures
        match u32_text_value(trim(line@)) {
            Some(v) => r == Ok::<u32, QueueError>(v),
            None => r matches Err(QueueError::OperationError(m)) && m@ == "Invalid measurement: "@
                + u32_error_text(trim(line@)),
        },
{
    let v = chars_of(line);
    let t = trim_chars(&v);
    let s = string_from_chars(&t);
    match parse_u32(s.as_str()) {
        Ok(m) => Ok(m),
        Err(e) => Err(QueueError::OperationError(join_text("Invalid measurement: ", &e))),
    }
}

/// Where a reader of a program's output stands: before a block of commands, inside one,
/// or done.
#[derive(Debug, Clone, Copy, PartialEq, Eq, Structural)]
pub enum OutputState {
    Seeking,
    InBlock,
    Done,
}

/// Whether a line starts with `CMD `.
pub open spec fn has_cmd_prefix(t: Seq<char>) -> bool {
    t.len() >= 4 && t.take(4) == "CMD "@
}

/// Whether the characters of `t` start with `CMD `.
fn cmd_prefix(t: &Vec<char>) -> (b: bool)
    ensures
        b == has_cmd_prefix(t@),
{
    let p = chars_of("CMD ");
    if t.len() < 4 {
        return false;
    }
    let head = crate::text::chars_before(t, 4);
    crate::text_map::chars_equal(&head, &p)
}

/// One line of a compiled program's output, as the classical engine reads it: a block
/// opens with `FLUSH_BEGIN` and closes with `FLUSH_END`, after which reading stops; inside
/// it, `CMD ` lines carry commands. Lines are trimmed first.
pub open spec fn engine_output_step(state: OutputState, l: Seq<char>) -> (
    OutputState,
    Option<Seq<char>>,
) {
    let t = trim(l);
    match state {
        OutputState::Seeking => if t == "FLUSH_BEGIN"@ {
            (OutputState::InBlock, None)
        } else {
            (OutputState::Seeking, None)
        },
        OutputState::InBlock => if t == "FLUSH_END"@ {
            (OutputState::Done, None)
        } else if has_cmd_prefix(t) {
            (OutputState::InBlock, Some(t.skip(4)))
        } else {
            (OutputState::InBlock, None)
        },
        OutputState::Done => (OutputState::Done, None),
    }
}

/// Reads one line of a compiled program's output (see `engine_output_step`): the next
/// state, and the text of the command the line carries, if any.
pub fn read_engine_output(state: OutputState, line: &str) -> (r: (OutputState, Option<String>))
    ensures
        engine_output_step(state, line@) == (r.0, match r.1 {
            Some(s) => Some(s@),
            None => None::<Seq<char>>,
        }),
{
    let v = chars_of(line);
    let t = trim_chars(&v);
    let ts = string_from_chars(&t);
    match state {
        OutputState::Seeking => if word_is(&ts, "FLUSH_BEGIN") {
            (OutputState::InBlock, None)
        } else {
            (OutputState::Seeking, None)
        },
        OutputState::InBlock => if word_is(&ts, "FLUSH_END") {
            (OutputState::Done, None)
        } else if cmd_prefix(&t) {
            let rest = chars_from(&t, 4);
            (OutputState::InBlock, Some(string_from_chars(&rest)))
        } else {
            (OutputState::InBlock, None)
        },
        OutputState::Done => (OutputState::Done, None),
    }
}

/// What the simulated quantum side answers to a command text: nothing for gates, the
/// coin for a well-formed measurement, an error otherwise.
pub open spec fn quantum_reply(cmd: Seq<char>, coin: u32) -> Result<Option<u32>, Seq<char>> {
    let p = words(cmd);
    if p.len() > 0 && (p[0] == "RZ"@ || p[0] == "R1XY"@ || p[0] == "SZZ"@ || p[0] == "H"@ || p[0]
        == "CX"@) {
        Ok(None)
    } else if p.len() > 0 && p[0] == "M"@ {
        if p.len() != 3 {
            Err("Invalid M command format"@)
        } else {
            Ok(Some(coin))
        }
    } else {
        Err("Unknown command: "@ + cmd)
    }
}

/// Answers a command text for a simulated run (see `quantum_reply`): gates need no
/// answer, a measurement `M qubit result_id` is answered with `coin`, a random bit.
pub fn process_quantum_command(cmd: &str, coin: u32) -> (r: Result<Option<u32>, QueueError>)
    ensures
        match r {
            Ok(x) => quantum_reply(cmd@, coin) == Ok::<Option<u32>, Seq<char>>(x),
            Err(e) => e matches QueueError::OperationError(m) && quantum_reply(cmd@, coin)
                == Err::<Option<u32>, Seq<char>>(m@),
        },
{
    let parts = split_whitespace(cmd);
    let ghost p = parts@.map_values(|w: String| w@);
    proof {
        if parts.len() > 0 {
            assert(p[0] == parts@[0]@);
        }
    }
    if parts.len() > 0 && (word_is(&parts[0], "RZ") || word_is(&parts[0], "R1XY") || word_is(
        &parts[0],
        "SZZ",
    ) || word_is(&parts[0], "H") || word_is(&parts[0], "CX")) {
        Ok(None)
    } else if parts.len() > 0 && word_is(&parts[0], "M") {
        if parts.len() != 3 {
            Err(QueueError::OperationError("Invalid M command format".to_string()))
        } else {
            Ok(Some(coin))
        }
    } else {
        let c = cmd.to_string();
        Err(QueueError::OperationError(join_text("Unknown command: ", &c)))
    }
}

/// The view of what a shot runner does with one output line.
pub enum ShotStep {
    Continue,
    Reply(u32),
    Record(Seq<char>, u32),
    Fail(Seq<char>),
}

/// What a shot runner does with one line of a program's output.
#[derive(Debug, Clone)]
pub enum ShotAction {
    /// Read on.
    Continue,
    /// Answer the program with a measurement.
    Reply(u32),
    /// Record a named result.
    Record { key: String, value: u32 },
    /// Stop with an error.
    Fail(QueueError),
}

/// The view of a shot runner's action.
pub open spec fn shot_action_view(a: ShotAction) -> ShotStep {
    match a {
        ShotAction::Continue => ShotStep::Continue,
        ShotAction::Reply(m) => ShotStep::Reply(m),
        ShotAction::Record { key, value } => ShotStep::Record(key@, value),
        ShotAction::Fail(e) => ShotStep::Fail(queue_error_text(e)),
    }
}

/// One line of a compiled program's output, as a shot runner reads it: a block of `CMD `
/// lines between `FLUSH_BEGIN` and `FLUSH_END` is answered command by command (with
/// `coin` for a measurement); outside blocks, `RESULT key value` lines are recorded.
pub open spec fn shot_output_step(state: OutputState, l: Seq<char>, coin: u32) -> (
    OutputState,
    ShotStep,
) {
    let t = trim(l);
    if state == OutputState::InBlock {
        if t == "FLUSH_END"@ {
            (OutputState::Seeking, ShotStep::Continue)
        } else if has_cmd_prefix(t) {
            match quantum_reply(t.skip(4), coin) {
                Ok(Some(m)) => (OutputState::InBlock, ShotStep::Reply(m)),
                Ok(None) => (OutputState::InBlock, ShotStep::Continue),
                Err(m) => (OutputState::InBlock, ShotStep::Fail("Queue operation error: "@ + m)),
            }
        } else {
            (OutputState::InBlock, ShotStep::Continue)
        }
    } else if t == "FLUSH_BEGIN"@ {
        (OutputState::InBlock, ShotStep::Continue)
    } else if t.len() >= 6 && t.take(6) == "RESULT"@ {
        let p = words(t);
        if p.len() == 3 && p[0] == "RESULT"@ {
            match u32_text_value(p[2]) {
                Some(v) => (OutputState::Seeking, ShotStep::Record(p[1], v)),
                None => (OutputState::Seeking, ShotStep::Continue),
            }
        } else {
            (OutputState::Seeking, ShotStep::Continue)
        }
    } else {
        (OutputState::Seeking, ShotStep::Continue)
    }
}

/// Whether the characters of `t` start with `RESULT`.
fn result_prefix(t: &Vec<char>) -> (b: bool)
    ensures
        b == (t@.len() >= 6 && t@.take(6) == "RESULT"@),
{
    if t.len() < 6 {
        return false;
    }
    let head = crate::text::chars_before(t, 6);
    let p = chars_of("RESULT");
    crate::text_map::chars_equal(&head, &p)
}

/// Reads one line of a compiled program's output in a simulated shot (see
/// `shot_output_step`); `coin` is the random bit that answers a measurement.
pub fn read_shot_output(state: OutputState, line: &str, coin: u32) -> (r: (OutputState, ShotAction))
    ensures
        shot_output_step(state, line@, coin) == (r.0, shot_action_view(r.1)),
{
    let v = chars_of(line);
    let t = trim_chars(&v);
    let ts = string_from_chars(&t);
    if state == OutputState::InBlock {
        if word_is(&ts, "FLUSH_END") {
            (OutputState::Seeking, ShotAction::Continue)
        } else if cmd_prefix(&t) {
            let rest = string_from_chars(&chars_from(&t, 4));
            match process_quantum_command(rest.as_str(), coin) {
                Ok(Some(m)) => (OutputState::InBlock, ShotAction::Reply(m)),
                Ok(None) => (OutputState::InBlock, ShotAction::Continue),
                Err(e) => (OutputState::InBlock, ShotAction::Fail(e)),
            }
        } else {
            (OutputState::InBlock, ShotAction::Continue)
        }
    } else if word_is(&ts, "FLUSH_BEGIN") {
        (OutputState::InBlock, ShotAction::Continue)
    } else if result_prefix(&t) {
        let parts = split_whitespace(ts.as_str());
        let ghost p = parts@.map_values(|w: String| w@);
        proof {
            if parts.len() == 3 {
                assert(p[0] == parts@[0]@ && p[1] == parts@[1]@ && p[2] == parts@[2]@);
            }
        }
        if parts.len() == 3 && word_is(&parts[0], "RESULT") {
            match parse_u32(parts[2].as_str()) {
                Ok(value) => {
                    let key = parts[1].clone();
                    (OutputState::Seeking, ShotAction::Record { key, value })
                },
                Err(_) => (OutputState::Seeking, ShotAction::Continue),
            }
        } else {
            (OutputState::Seeking, ShotAction::Continue)
        }
    } else {
        (OutputState::Seeking, ShotAction::Continue)
    }
}

/// The key of the `n`-th measurement of a shot: `measurement_n`.
pub open spec fn measurement_key(n: nat) -> Seq<char> {
    measurement_prefix() + decimal_text(n)
}

/// Writes `measurement_n`.
pub fn measurement_key_text(n: usize) -> (s: String)
    ensures
        s@ == measurement_key(n as nat),
{
    let mut out = chars_of("measurement_");
    proof {
        reveal_strlit("measurement_");
        assert(out@ =~= measurement_prefix());
    }
    let d = decimal_chars(n as u64);
    append_chars(&mut out, &d);
    string_from_chars(&out)
}

/// Records a measurement outcome of a shot under the next free index: the key is
/// `measurement_n`, where `n` is the number of values recorded so far.
pub fn record_measurement(results: &mut ShotResult, measurement: u32)
    ensures
        final(results).measurements.map_view() == old(results).measurements.map_view().insert(
            measurement_key(old(results).measurements.entry_views().len()),
            measurement,
        ),
{
    let n = results.measurements.len();
    let key = measurement_key_text(n);
    results.measurements.insert(key, measurement);
}

/// The line the program runtime prints for result `idx` once it has read `line` back: the
/// trimmed line read as a `u32` `m` gives `RESULT measurement_idx m`; anything else gives
/// an error line that quotes the parse error.
pub open spec fn result_reply_text(idx: nat, line: Seq<char>) -> Seq<char> {
    match u32_text_value(trim(line)) {
        Some(m) => "RESULT "@ + measurement_key(idx) + " "@ + decimal_text(m as nat),
        None => "[ERROR] Failed to parse measurement: "@ + u32_error_text(trim(line)),
    }
}

/// Writes the line for result `idx` after reading `line` back (see `result_reply_text`).
pub fn result_reply(idx: usize, line: &str) -> (s: String)
    ensures
        s@ == result_reply_text(idx as nat, line@),
{
    let v = chars_of(line);
    let t = trim_chars(&v);
    let ts = string_from_chars(&t);
    match parse_u32(ts.as_str()) {
        Ok(m) => {
            let mut out: Vec<char> = Vec::new();
            push_text(&mut out, "RESULT ");
            let key = measurement_key_text(idx);
            append_chars(&mut out, &chars_of(key.as_str()));
            push_text(&mut out, " ");
            append_chars(&mut out, &decimal_chars(m as u64));
            proof {
                assert(out@ =~= "RESULT "@ + measurement_key(idx as nat) + " "@ + decimal_text(
                    m as nat,
                ));
            }
            string_from_chars(&out)
        },
        Err(e) => join_text("[ERROR] Failed to parse measurement: ", &e),
    }
}

} // verus!
