use crate::engines::gate_arity;
use crate::protocol::{
    batch_text, command_lines, command_text, engine_output_step, has_cmd_prefix, index_text,
    measurement_key, result_reply_text, shot_output_step, OutputState, ShotStep,
};
use crate::text::{
    all_digits, decimal_text, digit_char, digits_value, is_digit, is_white_space, trim, trim_end,
    trim_start, u32_text_value, usize_text_value, word_scan, words,
};
use crate::types::{command_form, measurement_prefix, GateType};
use vstd::prelude::*;

verus! {

/// The decimal text of a number is made of digits, at least one.
pub proof fn lemma_decimal_text_digits(n: nat)
    ensures
        decimal_text(n).len() > 0,
        all_digits(decimal_text(n)),
        digits_value(decimal_text(n)) == n,
    decreases n,
{
    if n < 10 {
        let c = digit_char(n);
        assert(c as int == '0' as int + n);
        assert(decimal_text(n) =~= seq![c]);
        assert(seq![c].drop_last() =~= Seq::<char>::empty());
        assert(digits_value(Seq::<char>::empty()) == 0);
        assert(digits_value(seq![c]) == 10 * digits_value(Seq::<char>::empty()) + (c as int - '0' as int));
    } else {
        lemma_decimal_text_digits(n / 10);
        let s = decimal_text(n / 10);
        let c = digit_char(n % 10);
        assert(c as int == '0' as int + n % 10);
        assert(s.push(c).drop_last() =~= s);
        assert(digits_value(s.push(c)) == 10 * digits_value(s) + (c as int - '0' as int));
        assert(10 * (n / 10) + n % 10 == n);
        assert forall|i: int| 0 <= i < s.push(c).len() implies is_digit(#[trigger] s.push(c)[i]) by {
            if i < s.len() {
                assert(s.push(c)[i] == s[i]);
            }
        }
    }
}

/// Whether `w` can stand as a word: it is not empty and holds no white space.
pub open spec fn is_word(w: Seq<char>) -> bool {
    w.len() > 0 && forall|i: int| 0 <= i < w.len() ==> !is_white_space(#[trigger] w[i])
}

/// Words joined by single spaces.
pub open spec fn spaced(ws: Seq<Seq<char>>) -> Seq<char>
    decreases ws.len(),
{
    if ws.len() <= 1 {
        if ws.len() == 1 {
            ws[0]
        } else {
            Seq::empty()
        }
    } else {
        spaced(ws.drop_last()) + seq![' '] + ws.last()
    }
}

/// Reading on through characters that are not white space extends the current word.
pub proof fn lemma_scan_word(s: Seq<char>, t: Seq<char>)
    requires
        forall|i: int| 0 <= i < t.len() ==> !is_white_space(#[trigger] t[i]),
    ensures
        word_scan(s + t) == (word_scan(s).0, word_scan(s).1 + t),
    decreases t.len(),
{
    if t.len() == 0 {
        assert(s + t =~= s);
        assert(word_scan(s).1 + t =~= word_scan(s).1);
    } else {
        let t0 = t.drop_last();
        assert forall|i: int| 0 <= i < t0.len() implies !is_white_space(#[trigger] t0[i]) by {
            assert(t0[i] == t[i]);
        }
        lemma_scan_word(s, t0);
        assert((s + t).drop_last() =~= s + t0);
        assert((s + t).last() == t.last());
        assert(!is_white_space(t[t.len() - 1]));
        assert((word_scan(s).1 + t0).push(t.last()) =~= word_scan(s).1 + t);
    }
}

/// A space ends the current word.
pub proof fn lemma_scan_space(s: Seq<char>)
    ensures
        word_scan(s + seq![' ']) == (if word_scan(s).1.len() > 0 {
            (word_scan(s).0.push(word_scan(s).1), Seq::<char>::empty())
        } else {
            word_scan(s)
        }),
{
    assert((s + seq![' ']).drop_last() =~= s);
    assert((s + seq![' ']).last() == ' ');
}

/// Words joined by single spaces split back into the same words.
pub proof fn lemma_words_of_spaced(ws: Seq<Seq<char>>)
    requires
        ws.len() > 0,
        forall|i: int| 0 <= i < ws.len() ==> is_word(#[trigger] ws[i]),
    ensures
        word_scan(spaced(ws)) == (ws.drop_last(), ws.last()),
        words(spaced(ws)) == ws,
    decreases ws.len(),
{
    let e = Seq::<char>::empty();
    if ws.len() == 1 {
        assert(is_word(ws[0]));
        lemma_scan_word(e, ws[0]);
        assert(e + ws[0] =~= ws[0]);
        assert(e + ws[0] =~= ws[0]);
        assert(ws.drop_last() =~= Seq::<Seq<char>>::empty());
        assert(Seq::<Seq<char>>::empty().push(ws[0]) =~= ws);
    } else {
        let w0 = ws.drop_last();
        assert forall|i: int| 0 <= i < w0.len() implies is_word(#[trigger] w0[i]) by {
            assert(w0[i] == ws[i]);
        }
        lemma_words_of_spaced(w0);
        let head = spaced(w0);
        lemma_scan_space(head);
        assert(is_word(w0.last()));
        assert(w0.drop_last().push(w0.last()) =~= w0);
        assert(is_word(ws.last()));
        lemma_scan_word(head + seq![' '], ws.last());
        assert(w0.push(ws.last()) =~= ws);
    }
}

/// A measurement written in decimal on a line of its own reads back as itself.
pub proof fn lemma_measurement_text_round_trip(m: u32)
    ensures
        u32_text_value(trim(decimal_text(m as nat) + seq!['\n'])) == Some(m),
{
    let d = decimal_text(m as nat);
    lemma_decimal_text_digits(m as nat);
    let line = d + seq!['\n'];
    assert(line[0] == d[0]);
    assert(is_digit(d[0]));
    assert(trim_start(line) == line);
    assert(line.drop_last() =~= d);
    assert(is_digit(d[d.len() - 1]));
    assert(trim_end(d) == d);
    assert(trim_end(line) == trim_end(d));
    assert(trim(line) == d);
    assert(!(d.len() > 1 && d[0] == '+'));
}

/// The decimal text of an index reads back as the index.
pub proof fn lemma_index_text_round_trip(n: usize)
    ensures
        usize_text_value(index_text(n)) == Some(n),
        is_word(index_text(n)),
{
    let d = decimal_text(n as nat);
    lemma_decimal_text_digits(n as nat);
    assert(is_digit(d[0]));
    assert(!(d.len() > 1 && d[0] == '+'));
    assert forall|i: int| 0 <= i < d.len() implies !is_white_space(#[trigger] d[i]) by {
        assert(is_digit(d[i]));
    }
}

/// Two words joined by a space.
pub proof fn lemma_spaced_two(a: Seq<char>, b: Seq<char>)
    ensures
        spaced(seq![a, b]) == a + seq![' '] + b,
{
    assert(seq![a, b].drop_last() =~= seq![a]);
    assert(spaced(seq![a]) == a);
}

/// Three words joined by spaces.
pub proof fn lemma_spaced_three(a: Seq<char>, b: Seq<char>, c: Seq<char>)
    ensures
        spaced(seq![a, b, c]) == a + seq![' '] + b + seq![' '] + c,
{
    assert(seq![a, b, c].drop_last() =~= seq![a, b]);
    lemma_spaced_two(a, b);
}

/// Four words joined by spaces.
pub proof fn lemma_spaced_four(a: Seq<char>, b: Seq<char>, c: Seq<char>, d: Seq<char>)
    ensures
        spaced(seq![a, b, c, d]) == a + seq![' '] + b + seq![' '] + c + seq![' '] + d,
{
    assert(seq![a, b, c, d].drop_last() =~= seq![a, b, c]);
    lemma_spaced_three(a, b, c);
}

/// A command written for a channel reads back as the same command: the words of its text
/// give back its gate and qubits, where each angle text is a word that reads back as the
/// angle (`angles` holds what reading each word as an angle gave).
pub proof fn lemma_command_text_round_trip(
    c: (GateType, Seq<usize>),
    phi_text: Seq<char>,
    theta_text: Seq<char>,
    angles: Seq<Result<u64, Seq<char>>>,
)
    requires
        c.1.len() == gate_arity(c.0),
        angles.len() == words(command_text(c, phi_text, theta_text)).len(),
        match c.0 {
            GateType::RZ { theta } => is_word(theta_text) && angles[1] == Ok::<
                u64,
                Seq<char>,
            >(theta),
            GateType::R1XY { phi, theta } => is_word(phi_text) && is_word(theta_text)
                && angles[1] == Ok::<u64, Seq<char>>(phi) && angles[2] == Ok::<u64, Seq<char>>(
                theta,
            ),
            _ => true,
        },
    ensures
        command_form(words(command_text(c, phi_text, theta_text)), angles) == Ok::<
            (GateType, Seq<usize>),
            Seq<char>,
        >(c),
{
    reveal_strlit("RZ");
    reveal_strlit("R1XY");
    reveal_strlit("SZZ");
    reveal_strlit("H");
    reveal_strlit("CX");
    reveal_strlit("M");
    reveal_strlit("RZ ");
    reveal_strlit("R1XY ");
    reveal_strlit("SZZ ");
    reveal_strlit("H ");
    reveal_strlit("CX ");
    reveal_strlit("M ");
    reveal_strlit(" ");
    let q = c.1;
    lemma_index_text_round_trip(q[0]);
    let d0 = index_text(q[0]);
    let text = command_text(c, phi_text, theta_text);
    let rz = seq!['R', 'Z'];
    let r1xy = seq!['R', '1', 'X', 'Y'];
    let szz = seq!['S', 'Z', 'Z'];
    let h = seq!['H'];
    let cx = seq!['C', 'X'];
    let m = seq!['M'];
    assert(is_word(rz) && is_word(r1xy) && is_word(szz) && is_word(h) && is_word(cx) && is_word(m));
    assert("RZ"@ =~= rz);
    assert("R1XY"@ =~= r1xy);
    assert("SZZ"@ =~= szz);
    assert("H"@ =~= h);
    assert("CX"@ =~= cx);
    assert("M"@ =~= m);
    assert(cx[0] != rz[0] && cx != rz);
    assert(m[0] != h[0] && m != h);
    assert(r1xy.len() != rz.len() && r1xy != rz);
    match c.0 {
        GateType::RZ { theta } => {
            let ws = seq![rz, theta_text, d0];
            lemma_spaced_three(rz, theta_text, d0);
            assert(spaced(ws) =~= text);
            lemma_words_of_spaced(ws);
            assert(seq![q[0]] =~= q);
        },
        GateType::R1XY { phi, theta } => {
            let ws = seq![r1xy, phi_text, theta_text, d0];
            lemma_spaced_four(r1xy, phi_text, theta_text, d0);
            assert(spaced(ws) =~= text);
            lemma_words_of_spaced(ws);
            assert(seq![q[0]] =~= q);
        },
        GateType::SZZ => {
            lemma_index_text_round_trip(q[1]);
            let ws = seq![szz, d0, index_text(q[1])];
            lemma_spaced_three(szz, d0, index_text(q[1]));
            assert(spaced(ws) =~= text);
            lemma_words_of_spaced(ws);
            assert(seq![q[0], q[1]] =~= q);
        },
        GateType::H => {
            let ws = seq![h, d0];
            lemma_spaced_two(h, d0);
            assert(spaced(ws) =~= text);
            lemma_words_of_spaced(ws);
            assert(seq![q[0]] =~= q);
        },
        GateType::CX => {
            lemma_index_text_round_trip(q[1]);
            let ws = seq![cx, d0, index_text(q[1])];
            lemma_spaced_three(cx, d0, index_text(q[1]));
            assert(spaced(ws) =~= text);
            lemma_words_of_spaced(ws);
            assert(seq![q[0], q[1]] =~= q);
        },
        GateType::Measure { result_id } => {
            lemma_index_text_round_trip(result_id);
            let ws = seq![m, d0, index_text(result_id)];
            lemma_spaced_three(m, d0, index_text(result_id));
            assert(spaced(ws) =~= text);
            lemma_words_of_spaced(ws);
            assert(seq![q[0]] =~= q);
        },
    }
}

/// A result line that the program runtime prints reaches the shot reader as a record:
/// where the measurement read back is a `u32` `m`, the line printed for result `idx`
/// (with its line end), read outside a block of commands, records `m` under the key
/// `measurement_idx`.
pub proof fn lemma_result_reply_recorded(
    idx: nat,
    line: Seq<char>,
    m: u32,
    state: OutputState,
    coin: u32,
)
    requires
        u32_text_value(trim(line)) == Some(m),
        state != OutputState::InBlock,
    ensures
        shot_output_step(state, result_reply_text(idx, line) + seq!['\n'], coin) == (
            OutputState::Seeking,
            ShotStep::Record(measurement_key(idx), m),
        ),
{
    reveal_strlit("RESULT");
    reveal_strlit("RESULT ");
    reveal_strlit(" ");
    reveal_strlit("FLUSH_BEGIN");
    let r = "RESULT"@;
    let key = measurement_key(idx);
    let d = decimal_text(m as nat);
    let text = result_reply_text(idx, line);
    assert(text =~= r + seq![' '] + key + seq![' '] + d);
    lemma_decimal_text_digits(idx);
    lemma_decimal_text_digits(m as nat);
    let p = measurement_prefix();
    let di = decimal_text(idx);
    assert(is_word(r));
    assert forall|i: int| 0 <= i < key.len() implies !is_white_space(#[trigger] key[i]) by {
        if i < p.len() {
            assert(key[i] == p[i]);
        } else {
            assert(key[i] == di[i - p.len()]);
            assert(is_digit(di[i - p.len()]));
        }
    }
    assert(is_word(key));
    assert forall|i: int| 0 <= i < d.len() implies !is_white_space(#[trigger] d[i]) by {
        assert(is_digit(d[i]));
    }
    assert(is_word(d));
    let ws = seq![r, key, d];
    lemma_spaced_three(r, key, d);
    assert forall|i: int| 0 <= i < ws.len() implies is_word(#[trigger] ws[i]) by {}
    lemma_words_of_spaced(ws);
    assert(words(text) == ws);
    let l = text + seq!['\n'];
    assert(l[0] == 'R');
    assert(trim_start(l) == l);
    assert(l.drop_last() =~= text);
    assert(is_digit(d[d.len() - 1]));
    assert(text[text.len() - 1] == d[d.len() - 1]);
    assert(trim_end(text) == text);
    assert(trim(l) == text);
    assert(text.take(6) =~= r);
    assert(text != "FLUSH_BEGIN"@) by {
        assert(text[0] != "FLUSH_BEGIN"@[0]);
    }
    lemma_index_text_round_trip(m as usize);
    assert(index_text(m as usize) == d);
}

/// Lines put one after the other.
pub open spec fn joined(lines: Seq<Seq<char>>) -> Seq<char>
    decreases lines.len(),
{
    if lines.len() == 0 {
        Seq::empty()
    } else {
        joined(lines.drop_last()) + lines.last()
    }
}

/// The `CMD` lines of a batch, each with its line end.
pub open spec fn cmd_lines(ls: Seq<Seq<char>>) -> Seq<Seq<char>> {
    ls.map_values(|l: Seq<char>| "CMD "@ + l + "\n"@)
}

/// The lines of a batch as a reader meets them: `FLUSH_BEGIN`, a `CMD` line per command
/// and `FLUSH_END`, each with its line end.
pub open spec fn batch_lines(ls: Seq<Seq<char>>) -> Seq<Seq<char>> {
    seq!["FLUSH_BEGIN\n"@] + cmd_lines(ls) + seq!["FLUSH_END\n"@]
}

/// Reading `lines` one by one from `state` (see `engine_output_step`): the state reached
/// and the command texts met, in order.
pub open spec fn read_lines(state: OutputState, lines: Seq<Seq<char>>) -> (
    OutputState,
    Seq<Seq<char>>,
)
    decreases lines.len(),
{
    if lines.len() == 0 {
        (state, Seq::empty())
    } else {
        let (s0, found) = read_lines(state, lines.drop_last());
        let (s1, c) = engine_output_step(s0, lines.last());
        (
            s1,
            match c {
                Some(t) => found.push(t),
                None => found,
            },
        )
    }
}

/// A command text that survives trimming inside a `CMD` line: not empty, and not ending in
/// white space.
pub open spec fn is_command_line_text(l: Seq<char>) -> bool {
    l.len() > 0 && !is_white_space(l.last())
}

/// Putting lines together is putting their parts together.
pub proof fn lemma_joined_concat(a: Seq<Seq<char>>, b: Seq<Seq<char>>)
    ensures
        joined(a + b) == joined(a) + joined(b),
    decreases b.len(),
{
    if b.len() == 0 {
        assert(a + b =~= a);
        assert(joined(a) + joined(b) =~= joined(a));
    } else {
        lemma_joined_concat(a, b.drop_last());
        assert((a + b).drop_last() =~= a + b.drop_last());
        assert((a + b).last() == b.last());
        assert(joined(a) + joined(b) =~= joined(a) + joined(b.drop_last()) + b.last());
    }
}

/// The `CMD` lines put together are the `CMD` part of a batch's text.
proof fn lemma_joined_cmd_lines(ls: Seq<Seq<char>>)
    ensures
        joined(cmd_lines(ls)) == command_lines(ls),
    decreases ls.len(),
{
    if ls.len() > 0 {
        lemma_joined_cmd_lines(ls.drop_last());
        assert(cmd_lines(ls).drop_last() =~= cmd_lines(ls.drop_last()));
        assert(joined(cmd_lines(ls)) =~= command_lines(ls));
    }
}

/// The lines of a batch, put together, are the text that `command_batch_text` writes.
pub proof fn lemma_batch_lines_text(ls: Seq<Seq<char>>)
    ensures
        joined(batch_lines(ls)) == batch_text(ls),
{
    let fb = seq!["FLUSH_BEGIN\n"@];
    let fe = seq!["FLUSH_END\n"@];
    lemma_joined_concat(fb + cmd_lines(ls), fe);
    lemma_joined_concat(fb, cmd_lines(ls));
    lemma_joined_cmd_lines(ls);
    assert(fb.drop_last() =~= Seq::<Seq<char>>::empty());
    assert(fe.drop_last() =~= Seq::<Seq<char>>::empty());
    assert(joined(fb) == joined(fb.drop_last()) + fb.last());
    assert(joined(fb) =~= "FLUSH_BEGIN\n"@);
    assert(joined(fe) == joined(fe.drop_last()) + fe.last());
    assert(joined(fe) =~= "FLUSH_END\n"@);
    assert(joined(batch_lines(ls)) =~= batch_text(ls));
}

/// Reading lines in two parts is reading the first, then the second from where it ended.
pub proof fn lemma_read_lines_concat(state: OutputState, a: Seq<Seq<char>>, b: Seq<Seq<char>>)
    ensures
        read_lines(state, a + b) == (read_lines(read_lines(state, a).0, b).0, read_lines(
            state,
            a,
        ).1 + read_lines(read_lines(state, a).0, b).1),
    decreases b.len(),
{
    if b.len() == 0 {
        assert(a + b =~= a);
        assert(read_lines(state, a).1 + Seq::<Seq<char>>::empty() =~= read_lines(state, a).1);
    } else {
        lemma_read_lines_concat(state, a, b.drop_last());
        assert((a + b).drop_last() =~= a + b.drop_last());
        assert((a + b).last() == b.last());
        let s1 = read_lines(state, a).0;
        let f1 = read_lines(state, a).1;
        let (s2, f2) = read_lines(s1, b.drop_last());
        let (s3, c) = engine_output_step(s2, b.last());
        match c {
            Some(t) => {
                assert((f1 + f2).push(t) =~= f1 + f2.push(t));
            },
            None => {},
        }
    }
}

/// Inside a block, a `CMD` line carries its command text.
proof fn lemma_cmd_line_step(l: Seq<char>)
    requires
        is_command_line_text(l),
    ensures
        engine_output_step(OutputState::InBlock, "CMD "@ + l + "\n"@) == (
            OutputState::InBlock,
            Some(l),
        ),
{
    reveal_strlit("CMD ");
    reveal_strlit("\n");
    reveal_strlit("FLUSH_END");
    let t = "CMD "@ + l;
    let line = t + "\n"@;
    assert(line[0] == 'C');
    assert(trim_start(line) == line);
    assert(line.drop_last() =~= t);
    assert(t.last() == l.last());
    assert(trim_end(t) == t);
    assert(trim(line) == t);
    assert(t.take(4) =~= "CMD "@);
    assert(has_cmd_prefix(t));
    assert(t != "FLUSH_END"@) by {
        assert(t[0] != "FLUSH_END"@[0]);
    }
    assert(t.skip(4) =~= l);
}

/// Inside a block, `CMD` lines give back their command texts, in order.
proof fn lemma_read_cmd_lines(ls: Seq<Seq<char>>)
    requires
        forall|i: int| 0 <= i < ls.len() ==> is_command_line_text(#[trigger] ls[i]),
    ensures
        read_lines(OutputState::InBlock, cmd_lines(ls)) == (OutputState::InBlock, ls),
    decreases ls.len(),
{
    if ls.len() == 0 {
        assert(cmd_lines(ls) =~= Seq::<Seq<char>>::empty());
    } else {
        let init = ls.drop_last();
        assert forall|i: int| 0 <= i < init.len() implies is_command_line_text(
            #[trigger] init[i],
        ) by {
            assert(init[i] == ls[i]);
        }
        lemma_read_cmd_lines(init);
        assert(cmd_lines(ls).drop_last() =~= cmd_lines(init));
        assert(cmd_lines(ls).last() == "CMD "@ + ls.last() + "\n"@);
        assert(is_command_line_text(ls[ls.len() - 1]));
        lemma_cmd_line_step(ls.last());
        assert(init.push(ls.last()) =~= ls);
    }
}

/// A batch of commands, read line by line from the start, gives back the command texts it
/// was written from, in order, and ends the reading: what `command_batch_text` writes,
/// `read_engine_output` reads back.
pub proof fn lemma_batch_round_trip(ls: Seq<Seq<char>>)
    requires
        forall|i: int| 0 <= i < ls.len() ==> is_command_line_text(#[trigger] ls[i]),
    ensures
        read_lines(OutputState::Seeking, batch_lines(ls)) == (OutputState::Done, ls),
        joined(batch_lines(ls)) == batch_text(ls),
{
    reveal_strlit("FLUSH_BEGIN\n");
    reveal_strlit("FLUSH_BEGIN");
    reveal_strlit("FLUSH_END\n");
    reveal_strlit("FLUSH_END");
    lemma_batch_lines_text(ls);
    let fb = seq!["FLUSH_BEGIN\n"@];
    let fe = seq!["FLUSH_END\n"@];
    let b = "FLUSH_BEGIN\n"@;
    let e = "FLUSH_END\n"@;
    assert(b.drop_last() =~= "FLUSH_BEGIN"@);
    assert(b[0] == 'F');
    assert(trim_start(b) == b);
    assert(b.last() == '\n');
    assert(trim_end(b) == trim_end(b.drop_last()));
    assert("FLUSH_BEGIN"@.last() == 'N');
    assert(trim_end("FLUSH_BEGIN"@) == "FLUSH_BEGIN"@);
    assert(trim(b) == "FLUSH_BEGIN"@);
    assert(e.drop_last() =~= "FLUSH_END"@);
    assert(e[0] == 'F');
    assert(trim_start(e) == e);
    assert(e.last() == '\n');
    assert(trim_end(e) == trim_end(e.drop_last()));
    assert("FLUSH_END"@.last() == 'D');
    assert(trim_end("FLUSH_END"@) == "FLUSH_END"@);
    assert(trim(e) == "FLUSH_END"@);
    assert(fb.drop_last() =~= Seq::<Seq<char>>::empty());
    assert(fe.drop_last() =~= Seq::<Seq<char>>::empty());
    assert(read_lines(OutputState::Seeking, fb.drop_last()) == (
        OutputState::Seeking,
        Seq::<Seq<char>>::empty(),
    ));
    assert(fb.last() == b);
    assert(engine_output_step(OutputState::Seeking, b) == (OutputState::InBlock, None::<Seq<char>>));
    assert(read_lines(OutputState::Seeking, fb) == (OutputState::InBlock, Seq::<Seq<char>>::empty()));
    lemma_read_cmd_lines(ls);
    lemma_read_lines_concat(OutputState::Seeking, fb, cmd_lines(ls));
    assert(Seq::<Seq<char>>::empty() + ls =~= ls);
    assert(read_lines(OutputState::InBlock, fe.drop_last()) == (
        OutputState::InBlock,
        Seq::<Seq<char>>::empty(),
    ));
    assert(fe.last() == e);
    assert(engine_output_step(OutputState::InBlock, e) == (OutputState::Done, None::<Seq<char>>));
    assert(read_lines(OutputState::InBlock, fe) == (OutputState::Done, Seq::<Seq<char>>::empty()));
    lemma_read_lines_concat(OutputState::Seeking, fb + cmd_lines(ls), fe);
    assert(ls + Seq::<Seq<char>>::empty() =~= ls);
}

} // verus!
