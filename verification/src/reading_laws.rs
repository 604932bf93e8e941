use crate::engine_types::{self, engine_command_form};
use crate::phir::{access_check_all, measure_target, phir_step, OpView, PhirState, StepOutcome};
use crate::protocol::index_text;
use crate::protocol_laws::lemma_index_text_round_trip;
use crate::angle_parse::{has_pi, radians_text_form, AngleForm};
use crate::text::{decimal_text, find_char, find_pi, is_decimal_text, pi_at};
use crate::turn_word::TurnWord;
use crate::text_map::{keys_increasing, lemma_keys_distinct};
use crate::types::{command_form, plain_values, result_key, shot_summary, GateType};
use vstd::prelude::*;

verus! {

// Laws on how operations read their arguments: which word or argument becomes which
// qubit, result id or angle, which keys of a shot keep their own entry, and how the sign
// of a decimal angle is kept.

/// A PHIR `CX` or `SZZ` operation on `[a, b]` whose accesses pass hands out that operation on
/// `[a.index, b.index]`, in that order (for `CX`, `a` is the control and `b` the target),
/// and changes nothing else.
pub proof fn lemma_phir_two_qubit_order(
    ops: Seq<OpView>,
    s: PhirState,
    count: nat,
    qop: Seq<char>,
    angles: Option<Seq<u64>>,
    a: (Seq<char>, usize),
    b: (Seq<char>, usize),
    outputs: Seq<(Seq<char>, usize)>,
)
    requires
        s.current < ops.len(),
        qop == "CX"@ || qop == "SZZ"@,
        ops[s.current as int] == (OpView::Quantum { qop, angles, args: seq![a, b], outputs }),
        access_check_all(s.qvars, s.cvars, seq![a, b]) == Ok::<(), Seq<char>>(()),
    ensures
        phir_step(ops, s, count) == StepOutcome::Next(
            PhirState {
                pending: s.pending.push(
                    (
                        if qop == "CX"@ {
                            GateType::CX
                        } else {
                            GateType::SZZ
                        },
                        seq![a.1, b.1],
                    ),
                ),
                ..s
            },
            false,
            count,
        ),
{
    reveal_strlit("CX");
    reveal_strlit("SZZ");
    reveal_strlit("Measure");
    reveal_strlit("RZ");
    reveal_strlit("R1XY");
    reveal_strlit("H");
    assert("CX"@ != "RZ"@) by {
        assert("CX"@[0] != "RZ"@[0]);
    }
    assert("Measure"@.len() == 7 && "R1XY"@.len() == 4 && "H"@.len() == 1);
    assert("SZZ"@.len() == 3 && "CX"@.len() == 2 && "RZ"@.len() == 2);
}

/// A PHIR `R1XY` operation on `[a]` with angles `[phi, theta, ...]` whose access passes
/// hands out `R1XY` with the first angle as `phi` and the second as `theta`, on
/// `a.index`.
pub proof fn lemma_phir_r1xy_angles(
    ops: Seq<OpView>,
    s: PhirState,
    count: nat,
    av: Seq<u64>,
    a: (Seq<char>, usize),
    outputs: Seq<(Seq<char>, usize)>,
)
    requires
        s.current < ops.len(),
        av.len() >= 2,
        ops[s.current as int] == (OpView::Quantum {
            qop: "R1XY"@,
            angles: Some(av),
            args: seq![a],
            outputs,
        }),
        access_check_all(s.qvars, s.cvars, seq![a]) == Ok::<(), Seq<char>>(()),
    ensures
        phir_step(ops, s, count) == StepOutcome::Next(
            PhirState {
                pending: s.pending.push((GateType::R1XY { phi: av[0], theta: av[1] }, seq![a.1])),
                ..s
            },
            false,
            count,
        ),
{
    reveal_strlit("R1XY");
    reveal_strlit("Measure");
    reveal_strlit("RZ");
    assert("Measure"@.len() == 7 && "R1XY"@.len() == 4 && "RZ"@.len() == 2);
}

/// A PHIR measurement of `[a]` hands out a measurement of `a.index` whose result id is
/// the number of measurements issued before it in this run, and remembers the element
/// it writes to.
pub proof fn lemma_phir_measure(
    ops: Seq<OpView>,
    s: PhirState,
    count: nat,
    a: (Seq<char>, usize),
    outputs: Seq<(Seq<char>, usize)>,
)
    requires
        s.current < ops.len(),
        ops[s.current as int] == (OpView::Quantum {
            qop: "Measure"@,
            angles: None,
            args: seq![a],
            outputs,
        }),
    ensures
        phir_step(ops, s, count) == StepOutcome::Next(
            PhirState {
                pending: s.pending.push((GateType::Measure { result_id: count as usize }, seq![a.1])),
                targets: s.targets.push(measure_target(outputs)),
                ..s
            },
            false,
            count + 1,
        ),
{
}

/// The words `M q r` of an engine command, with `q` and `r` written in decimal, read as a
/// measurement of qubit `q` whose result id is `r`; `ZZ a b` reads as `ZZ` on `[a, b]`.
pub proof fn lemma_engine_command_words(q: usize, r: usize, angles: Seq<Result<u64, Seq<char>>>)
    ensures
        engine_command_form(seq!["M"@, index_text(q), index_text(r)], angles) == Ok::<
            (engine_types::GateType, Seq<usize>),
            Seq<char>,
        >((engine_types::GateType::Measure { result_id: r }, seq![q])),
        engine_command_form(seq!["ZZ"@, index_text(q), index_text(r)], angles) == Ok::<
            (engine_types::GateType, Seq<usize>),
            Seq<char>,
        >((engine_types::GateType::ZZ, seq![q, r])),
{
    reveal_strlit("M");
    reveal_strlit("ZZ");
    reveal_strlit("RZ");
    reveal_strlit("RXY");
    assert("M"@.len() == 1 && "ZZ"@.len() == 2 && "RZ"@.len() == 2 && "RXY"@.len() == 3);
    assert("ZZ"@ != "RZ"@) by {
        assert("ZZ"@[0] != "RZ"@[0]);
    }
    lemma_index_text_round_trip(q);
    lemma_index_text_round_trip(r);
}

/// The words `M q r`, `CX c t` and `SZZ a b` of a channel command, with the numbers
/// written in decimal, read as a measurement of qubit `q` with result id `r`, as `CX`
/// with control `c` and target `t` (qubits `[c, t]`), and as `SZZ` on `[a, b]`.
pub proof fn lemma_command_words(q: usize, r: usize, angles: Seq<Result<u64, Seq<char>>>)
    ensures
        command_form(seq!["M"@, index_text(q), index_text(r)], angles) == Ok::<
            (GateType, Seq<usize>),
            Seq<char>,
        >((GateType::Measure { result_id: r }, seq![q])),
        command_form(seq!["CX"@, index_text(q), index_text(r)], angles) == Ok::<
            (GateType, Seq<usize>),
            Seq<char>,
        >((GateType::CX, seq![q, r])),
        command_form(seq!["SZZ"@, index_text(q), index_text(r)], angles) == Ok::<
            (GateType, Seq<usize>),
            Seq<char>,
        >((GateType::SZZ, seq![q, r])),
{
    reveal_strlit("M");
    reveal_strlit("CX");
    reveal_strlit("SZZ");
    reveal_strlit("RZ");
    reveal_strlit("R1XY");
    reveal_strlit("H");
    assert("M"@.len() == 1 && "CX"@.len() == 2 && "SZZ"@.len() == 3 && "RZ"@.len() == 2);
    assert("R1XY"@.len() == 4 && "H"@.len() == 1);
    assert("CX"@ != "RZ"@) by {
        assert("CX"@[0] != "RZ"@[0]);
    }
    assert("M"@ != "H"@) by {
        assert("M"@[0] != "H"@[0]);
    }
    lemma_index_text_round_trip(q);
    lemma_index_text_round_trip(r);
}

/// Whether `k` begins with the twelve characters `measurement_`.
pub open spec fn begins_with_measurement(k: Seq<char>) -> bool {
    k.len() >= 12 && k.take(12) == "measurement_"@
}

/// The values under keys that do not begin with `measurement_` keep their own entries.
proof fn lemma_plain_values_keep(e: Seq<(Seq<char>, u32)>, i: int)
    requires
        keys_increasing(e),
        0 <= i < e.len(),
        !begins_with_measurement(e[i].0),
    ensures
        plain_values(e).dom().contains(e[i].0),
        plain_values(e)[e[i].0] == decimal_text(e[i].1 as nat),
    decreases e.len(),
{
    reveal_strlit("measurement_");
    assert("measurement_"@ =~= crate::types::measurement_prefix());
    let t = e.drop_last();
    if i < e.len() - 1 {
        assert(keys_increasing(t)) by {
            assert forall|x: int, y: int| 0 <= x < y < t.len() implies crate::text_map::text_less(
                #[trigger] t[x].0,
                #[trigger] t[y].0,
            ) by {
                assert(t[x] == e[x] && t[y] == e[y]);
            }
        }
        assert(t[i] == e[i]);
        lemma_plain_values_keep(t, i);
        lemma_keys_distinct(e, i, e.len() - 1);
    }
}

/// Keys that begin with `measurement_` get no entry of their own.
proof fn lemma_plain_values_drop(e: Seq<(Seq<char>, u32)>, k: Seq<char>)
    requires
        begins_with_measurement(k),
    ensures
        !plain_values(e).dom().contains(k),
    decreases e.len(),
{
    reveal_strlit("measurement_");
    assert("measurement_"@ =~= crate::types::measurement_prefix());
    if e.len() > 0 {
        lemma_plain_values_drop(e.drop_last(), k);
    }
}

/// In the summary of a shot (its entries `e`, in key order), a key that does not begin
/// with `measurement_` (other than `result`) keeps its own entry, holding its value in
/// decimal; a key that begins with `measurement_` gets none, its value going to `result`.
pub proof fn lemma_summary_keys(e: Seq<(Seq<char>, u32)>, k: Seq<char>)
    requires
        keys_increasing(e),
    ensures
        forall|i: int|
            0 <= i < e.len() && !begins_with_measurement(#[trigger] e[i].0) && e[i].0
                != result_key() ==> shot_summary(e).dom().contains(e[i].0) && shot_summary(
                e,
            )[e[i].0] == decimal_text(e[i].1 as nat),
        begins_with_measurement(k) ==> !shot_summary(e).dom().contains(k) || k == result_key(),
{
    assert forall|i: int|
        0 <= i < e.len() && !begins_with_measurement(#[trigger] e[i].0) && e[i].0
            != result_key() implies shot_summary(e).dom().contains(e[i].0) && shot_summary(
        e,
    )[e[i].0] == decimal_text(e[i].1 as nat) by {
        lemma_plain_values_keep(e, i);
    }
    if begins_with_measurement(k) {
        lemma_plain_values_drop(e, k);
    }
}

/// Where `c` does not occur in `s`, its search runs to the end.
proof fn lemma_find_char_absent(s: Seq<char>, c: char)
    requires
        forall|i: int| 0 <= i < s.len() ==> s[i] != c,
    ensures
        find_char(s, c) == s.len(),
    decreases s.len(),
{
    if s.len() > 0 {
        let f = s.drop_first();
        assert forall|i: int| 0 <= i < f.len() implies f[i] != c by {
            assert(f[i] == s[i + 1]);
        }
        lemma_find_char_absent(f, c);
    }
}

/// Where `c` occurs at `k`, its search stops at or before `k`.
proof fn lemma_find_char_present(s: Seq<char>, c: char, k: int)
    requires
        0 <= k < s.len(),
        s[k] == c,
    ensures
        find_char(s, c) <= k,
    decreases s.len(),
{
    if s[0] != c {
        let f = s.drop_first();
        assert(f[k - 1] == s[k]);
        lemma_find_char_present(f, c, k - 1);
    }
}

/// Where no `p` occurs in `s`, the search for `pi` runs to the end.
proof fn lemma_find_pi_absent(s: Seq<char>)
    requires
        forall|i: int| 0 <= i < s.len() ==> s[i] != 'p',
    ensures
        find_pi(s) == s.len(),
    decreases s.len(),
{
    if s.len() > 0 {
        assert(!pi_at(s, 0));
        let f = s.drop_first();
        assert forall|i: int| 0 <= i < f.len() implies f[i] != 'p' by {
            assert(f[i] == s[i + 1]);
        }
        lemma_find_pi_absent(f);
    }
}

/// A plain decimal number of radians (digits with a decimal point, and an optional
/// leading `-`) reads as exactly the number written, sign included: its digits are the
/// whole text, not multiplied by π.
pub proof fn lemma_plain_decimal_reading<T: TurnWord>(t: Seq<char>)
    requires
        is_decimal_text(t),
        exists|i: int| 0 <= i < t.len() && t[i] == '.',
    ensures
        radians_text_form::<T>(t) == Ok::<AngleForm, crate::angle_parse::ParseAngleError>(
            AngleForm::Decimal { digits: t, times_pi: false },
        ),
{
    let k = choose|i: int| 0 <= i < t.len() && t[i] == '.';
    assert forall|i: int| 0 <= i < t.len() implies t[i] != '/' && t[i] != 'p' && t[i] != 'π' by {
        assert((t[i] == '-' && i == 0) || t[i] == '.' || crate::text::is_digit(t[i]));
    }
    lemma_find_char_absent(t, '/');
    lemma_find_char_absent(t, 'π');
    lemma_find_pi_absent(t);
    lemma_find_char_present(t, '.', k);
    assert(!has_pi(t));
    assert(t != seq!['p', 'i'] && t != seq!['π'] && t != seq!['-', 'p', 'i'] && t != seq!['-', 'π'])
        by {
        if t.len() == 2 || t.len() == 1 || t.len() == 3 {
            assert(t[k] == '.');
        }
    }
}

/// Writing `-` before a plain decimal number of radians negates what is read: the digits
/// read from `-t` are `-` followed by those read from `t`.
pub proof fn lemma_decimal_sign<T: TurnWord>(t: Seq<char>)
    requires
        is_decimal_text(t),
        t.len() > 0 && t[0] != '-',
        exists|i: int| 0 <= i < t.len() && t[i] == '.',
    ensures
        radians_text_form::<T>(t) matches Ok(AngleForm::Decimal { digits: d, times_pi: false })
            && radians_text_form::<T>(seq!['-'] + t) == Ok::<
            AngleForm,
            crate::angle_parse::ParseAngleError,
        >(AngleForm::Decimal { digits: seq!['-'] + d, times_pi: false }),
{
    let n = seq!['-'] + t;
    lemma_plain_decimal_reading::<T>(t);
    let k = choose|i: int| 0 <= i < t.len() && t[i] == '.';
    let j = choose|i: int| 0 <= i < t.len() && crate::text::is_digit(#[trigger] t[i]);
    assert(n[k + 1] == '.');
    assert(n[j + 1] == t[j]);
    assert(is_decimal_text(n)) by {
        assert(n[0] == '-');
        assert forall|i: int| 0 <= i < n.len() implies (n[i] == '-' && i == 0) || n[i] == '.'
            || crate::text::is_digit(#[trigger] n[i]) by {
            if i > 0 {
                assert(n[i] == t[i - 1]);
            }
        }
        assert forall|x: int, y: int| 0 <= x < y < n.len() && n[x] == '.' implies n[y] != '.' by {
            assert(x > 0);
            assert(n[x] == t[x - 1] && n[y] == t[y - 1]);
        }
    }
    lemma_plain_decimal_reading::<T>(n);
}

/// The rotation words of a channel command take their angles in order: `RZ θ q` is `RZ`
/// by the reading of its second word on qubit `q`, `R1XY φ θ q` is `R1XY` with the
/// reading of the second word as `phi` and of the third as `theta`, and `H q` is `H` on
/// `q`.
pub proof fn lemma_command_rotation_words(
    w1: Seq<char>,
    w2: Seq<char>,
    q: usize,
    phi: u64,
    theta: u64,
    other: Result<u64, Seq<char>>,
)
    ensures
        command_form(
            seq!["RZ"@, w1, index_text(q)],
            seq![other, Ok::<u64, Seq<char>>(theta), other],
        ) == Ok::<(GateType, Seq<usize>), Seq<char>>((GateType::RZ { theta }, seq![q])),
        command_form(
            seq!["R1XY"@, w1, w2, index_text(q)],
            seq![other, Ok::<u64, Seq<char>>(phi), Ok::<u64, Seq<char>>(theta), other],
        ) == Ok::<(GateType, Seq<usize>), Seq<char>>((GateType::R1XY { phi, theta }, seq![q])),
        command_form(seq!["H"@, index_text(q)], seq![other, other]) == Ok::<
            (GateType, Seq<usize>),
            Seq<char>,
        >((GateType::H, seq![q])),
        engine_command_form(
            seq!["RXY"@, w1, w2, index_text(q)],
            seq![other, Ok::<u64, Seq<char>>(phi), Ok::<u64, Seq<char>>(theta), other],
        ) == Ok::<(engine_types::GateType, Seq<usize>), Seq<char>>(
            (engine_types::GateType::RXY { phi, theta }, seq![q]),
        ),
        engine_command_form(
            seq!["RZ"@, w1, index_text(q)],
            seq![other, Ok::<u64, Seq<char>>(theta), other],
        ) == Ok::<(engine_types::GateType, Seq<usize>), Seq<char>>(
            (engine_types::GateType::RZ { theta }, seq![q]),
        ),
{
    reveal_strlit("RZ");
    reveal_strlit("R1XY");
    reveal_strlit("RXY");
    reveal_strlit("H");
    reveal_strlit("SZZ");
    assert("RZ"@.len() == 2 && "R1XY"@.len() == 4 && "RXY"@.len() == 3 && "H"@.len() == 1);
    assert("SZZ"@.len() == 3);
    lemma_index_text_round_trip(q);
}

/// PHIR `RZ` on `[a]` with angles `[θ, ...]` and `H` on `[a]`, whose access passes, hand
/// out `RZ` by `θ`, and `H`, on `a.index`.
pub proof fn lemma_phir_one_qubit(
    ops: Seq<OpView>,
    s: PhirState,
    count: nat,
    qop: Seq<char>,
    av: Seq<u64>,
    a: (Seq<char>, usize),
    outputs: Seq<(Seq<char>, usize)>,
)
    requires
        s.current < ops.len(),
        qop == "RZ"@ || qop == "H"@,
        av.len() >= 1,
        ops[s.current as int] == (OpView::Quantum { qop, angles: Some(av), args: seq![a], outputs }),
        access_check_all(s.qvars, s.cvars, seq![a]) == Ok::<(), Seq<char>>(()),
    ensures
        phir_step(ops, s, count) == StepOutcome::Next(
            PhirState {
                pending: s.pending.push(
                    (
                        if qop == "RZ"@ {
                            GateType::RZ { theta: av[0] }
                        } else {
                            GateType::H
                        },
                        seq![a.1],
                    ),
                ),
                ..s
            },
            false,
            count,
        ),
{
    reveal_strlit("RZ");
    reveal_strlit("R1XY");
    reveal_strlit("SZZ");
    reveal_strlit("Measure");
    reveal_strlit("H");
    assert("Measure"@.len() == 7 && "R1XY"@.len() == 4 && "RZ"@.len() == 2 && "H"@.len() == 1);
    assert("SZZ"@.len() == 3);
}

} // verus!
