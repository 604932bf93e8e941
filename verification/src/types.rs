use crate::text::{
    append_chars, chars_of, decimal_chars, decimal_text, parse_usize, string_from_chars,
    usize_error_text, usize_text_value,
};
use crate::text_map::chars_equal;
use crate::text_map::TextMap;
use vstd::prelude::*;

verus! {

/// Counts of the outcomes 0 and 1 seen on one qubit.
#[derive(Debug, Clone, Copy, PartialEq, Eq)]
pub struct QubitStats {
    pub zeros: usize,
    pub ones: usize,
}

impl View for QubitStats {
    type V = (usize, usize);

    open spec fn view(&self) -> (usize, usize) {
        (self.zeros, self.ones)
    }
}

impl QubitStats {
    /// No outcomes yet.
    pub fn new() -> (s: Self)
        ensures
            s.zeros == 0,
            s.ones == 0,
    {
        QubitStats { zeros: 0, ones: 0 }
    }

    /// Counts one outcome: 0 and 1 are counted, any other value is ignored (see
    /// `after_measurement`).
    pub fn add_measurement(&mut self, value: u32)
        requires
            value == 0 ==> old(self).zeros < usize::MAX,
            value == 1 ==> old(self).ones < usize::MAX,
        ensures
            (final(self).zeros as int, final(self).ones as int) == after_measurement(
                (old(self).zeros as int, old(self).ones as int),
                value,
            ),
    {
        if value == 0 {
            self.zeros = self.zeros + 1;
        } else if value == 1 {
            self.ones = self.ones + 1;
        }
    }

    /// The number of outcomes counted.
    pub fn total_measurements(&self) -> (n: usize)
        requires
            self.zeros + self.ones <= usize::MAX,
        ensures
            n == self.zeros + self.ones,
    {
        self.zeros + self.ones
    }
}

/// The counts of zeros and ones after one more outcome `value`.
pub open spec fn after_measurement(counts: (int, int), value: u32) -> (int, int) {
    (
        counts.0 + if value == 0 {
            1int
        } else {
            0
        },
        counts.1 + if value == 1 {
            1int
        } else {
            0
        },
    )
}

/// The counts after the outcomes `values`, one after the other.
pub open spec fn after_measurements(counts: (int, int), values: Seq<u32>) -> (int, int)
    decreases values.len(),
{
    if values.len() == 0 {
        counts
    } else {
        after_measurement(after_measurements(counts, values.drop_last()), values.last())
    }
}

/// The number of times `v` occurs in `values`.
pub open spec fn occurrences(values: Seq<u32>, v: u32) -> nat
    decreases values.len(),
{
    if values.len() == 0 {
        0
    } else {
        occurrences(values.drop_last(), v) + if values.last() == v {
            1nat
        } else {
            0nat
        }
    }
}

/// The number of outcomes in `values` that are 0 or 1.
pub open spec fn binary_outcomes(values: Seq<u32>) -> nat
    decreases values.len(),
{
    if values.len() == 0 {
        0
    } else {
        binary_outcomes(values.drop_last()) + if values.last() == 0 || values.last() == 1 {
            1nat
        } else {
            0nat
        }
    }
}

/// Counting outcomes from fresh statistics: after the outcomes `values`, the zeros are the
/// number of 0s, the ones the number of 1s, and their sum, which `total_measurements`
/// gives, is the number of outcomes that are 0 or 1. That sum is at most the number of
/// outcomes, so for any run of at most `usize::MAX` outcomes the counters never overflow:
/// each call of `add_measurement` and the final `total_measurements` may be made.
pub proof fn lemma_counts_after_measurements(values: Seq<u32>)
    ensures
        after_measurements((0, 0), values) == (occurrences(values, 0) as int, occurrences(
            values,
            1,
        ) as int),
        after_measurements((0, 0), values).0 + after_measurements((0, 0), values).1
            == binary_outcomes(values),
        binary_outcomes(values) <= values.len(),
    decreases values.len(),
{
    if values.len() > 0 {
        lemma_counts_after_measurements(values.drop_last());
    }
}

impl Default for QubitStats {
    fn default() -> (s: Self)
        ensures
            s.zeros == 0,
            s.ones == 0,
    {
        Self::new()
    }
}

/// The named measurement values of one shot.
#[derive(Debug, Clone)]
pub struct ShotResult {
    pub measurements: TextMap<u32>,
}

impl ShotResult {
    /// A shot with no values.
    pub fn new() -> (r: Self)
        ensures
            r.measurements.map_view() == Map::<Seq<char>, u32>::empty(),
    {
        ShotResult { measurements: TextMap::new() }
    }
}

impl Default for ShotResult {
    fn default() -> (r: Self)
        ensures
            r.measurements.map_view() == Map::<Seq<char>, u32>::empty(),
    {
        Self::new()
    }
}

/// Statistics of many shots: the number of shots, and outcome counts by name.
#[derive(Debug)]
pub struct MeasurementStatistics {
    pub total_shots: usize,
    pub per_qubit_stats: TextMap<QubitStats>,
}

/// The prefix that marks a value as a measurement outcome.
pub open spec fn measurement_prefix() -> Seq<char> {
    seq!['m', 'e', 'a', 's', 'u', 'r', 'e', 'm', 'e', 'n', 't', '_']
}

/// The key under which the outcomes of a shot are gathered.
pub open spec fn result_key() -> Seq<char> {
    seq!['r', 'e', 's', 'u', 'l', 't']
}

/// Whether a key names a measurement outcome: it starts with `measurement_`.
pub open spec fn is_measurement_key(k: Seq<char>) -> bool {
    k.len() >= 12 && k.take(12) == measurement_prefix()
}

/// The values whose keys are not measurement keys, written in decimal.
pub open spec fn plain_values(e: Seq<(Seq<char>, u32)>) -> Map<Seq<char>, Seq<char>>
    decreases e.len(),
{
    if e.len() == 0 {
        Map::empty()
    } else if is_measurement_key(e.last().0) {
        plain_values(e.drop_last())
    } else {
        plain_values(e.drop_last()).insert(e.last().0, decimal_text(e.last().1 as nat))
    }
}

/// The measurement outcomes, written in decimal one after the other in the order of `e`.
pub open spec fn outcome_digits(e: Seq<(Seq<char>, u32)>) -> Seq<char>
    decreases e.len(),
{
    if e.len() == 0 {
        Seq::empty()
    } else if is_measurement_key(e.last().0) {
        outcome_digits(e.drop_last()) + decimal_text(e.last().1 as nat)
    } else {
        outcome_digits(e.drop_last())
    }
}

/// Whether some key of `e` names a measurement outcome.
pub open spec fn has_outcome(e: Seq<(Seq<char>, u32)>) -> bool {
    exists|i: int| 0 <= i < e.len() && is_measurement_key(#[trigger] e[i].0)
}

/// The summary of a shot whose entries, in key order, are `e`: the values that are not
/// measurement outcomes, plus, where there are outcomes, their digits under `result`.
pub open spec fn shot_summary(e: Seq<(Seq<char>, u32)>) -> Map<Seq<char>, Seq<char>> {
    if has_outcome(e) {
        plain_values(e).insert(result_key(), outcome_digits(e))
    } else {
        plain_values(e)
    }
}

/// Whether the characters of `k` start with `measurement_`.
fn starts_with_measurement(k: &Vec<char>) -> (b: bool)
    ensures
        b == is_measurement_key(k@),
{
    if k.len() < 12 {
        return false;
    }
    let b = k[0] == 'm' && k[1] == 'e' && k[2] == 'a' && k[3] == 's' && k[4] == 'u' && k[5]
        == 'r' && k[6] == 'e' && k[7] == 'm' && k[8] == 'e' && k[9] == 'n' && k[10] == 't'
        && k[11] == '_';
    proof {
        if b {
            assert(k@.take(12) =~= measurement_prefix());
        } else {
            assert(k@.take(12) != measurement_prefix()) by {
                if k@.take(12) == measurement_prefix() {
                    assert(k@.take(12)[0] == 'm' && k@.take(12)[1] == 'e');
                    assert(k@.take(12)[2] == 'a' && k@.take(12)[3] == 's');
                    assert(k@.take(12)[4] == 'u' && k@.take(12)[5] == 'r');
                    assert(k@.take(12)[6] == 'e' && k@.take(12)[7] == 'm');
                    assert(k@.take(12)[8] == 'e' && k@.take(12)[9] == 'n');
                    assert(k@.take(12)[10] == 't' && k@.take(12)[11] == '_');
                }
            }
        }
    }
    b
}

/// The result of many shots: one summary per shot, by name.
#[derive(Debug, Clone)]
pub struct ShotResults {
    pub shots: Vec<TextMap<String>>,
}

impl ShotResults {
    /// No shots.
    pub fn new() -> (r: Self)
        ensures
            r.shots@.len() == 0,
    {
        ShotResults { shots: Vec::new() }
    }

    /// Summarizes shots: for each, the values that are not measurement outcomes are
    /// kept in decimal, and the outcomes (keys starting with `measurement_`) are written
    /// one after the other, in key order, under `result`.
    pub fn from_measurements(results: &[ShotResult]) -> (r: Self)
        ensures
            r.shots@.len() == results@.len(),
            forall|i: int|
                0 <= i < results@.len() ==> (#[trigger] r.shots@[i]).map_view()
                    == shot_summary(results@[i].measurements.entry_views()),
    {
        let mut shots: Vec<TextMap<String>> = Vec::new();
        let mut s: usize = 0;
        while s < results.len()
            invariant
                s <= results@.len(),
                shots@.len() == s,
                forall|i: int|
                    0 <= i < s ==> (#[trigger] shots@[i]).map_view()
                        == shot_summary(results@[i].measurements.entry_views()),
            decreases results@.len() - s,
        {
            let summary = summarize_shot(&results[s]);
            shots.push(summary);
            s = s + 1;
        }
        ShotResults { shots }
    }
}

/// The summary of one shot (see `shot_summary`).
fn summarize_shot(shot: &ShotResult) -> (m: TextMap<String>)
    ensures
        m.map_view() == shot_summary(shot.measurements.entry_views()),
{
    let entries = shot.measurements.entries();
    let ghost e = shot.measurements.entry_views();
    let mut plain: TextMap<String> = TextMap::new();
    let mut digits: Vec<char> = Vec::new();
    let mut any = false;
    let mut j: usize = 0;
    while j < entries.len()
        invariant
            j <= entries@.len() == e.len(),
            e == entries@.map_values(|x: (String, u32)| (x.0@, x.1@)),
            plain.map_view() == plain_values(e.take(j as int)),
            digits@ == outcome_digits(e.take(j as int)),
            any == has_outcome(e.take(j as int)),
        decreases entries@.len() - j,
    {
        let key = chars_of(entries[j].0.as_str());
        let value = entries[j].1;
        let ghost t = e.take(j + 1);
        proof {
            assert(t.drop_last() =~= e.take(j as int));
            assert(t.last() == e[j as int]);
            assert(e[j as int] == (entries@[j as int].0@, entries@[j as int].1));
        }
        let text = decimal_chars(value as u64);
        if starts_with_measurement(&key) {
            append_chars(&mut digits, &text);
            any = true;
            proof {
                assert(is_measurement_key(t[j as int].0));
            }
        } else {
            let k = entries[j].0.clone();
            plain.insert(k, string_from_chars(&text));
            proof {
                assert forall|i: int| 0 <= i < t.len() && is_measurement_key(
                    #[trigger] t[i].0,
                ) implies i < j by {}
                if has_outcome(e.take(j as int)) {
                    let i = choose|i: int|
                        0 <= i < e.take(j as int).len() && is_measurement_key(
                            #[trigger] e.take(j as int)[i].0,
                        );
                    assert(t[i] == e.take(j as int)[i]);
                }
                if has_outcome(t) {
                    let i = choose|i: int| 0 <= i < t.len() && is_measurement_key(#[trigger] t[i].0);
                    assert(e.take(j as int)[i] == t[i]);
                }
            }
        }
        j = j + 1;
    }
    proof {
        assert(e.take(j as int) =~= e);
    }
    if any {
        let key = "result".to_string();
        proof {
            reveal_strlit("result");
            assert(key@ =~= result_key());
        }
        plain.insert(key, string_from_chars(&digits));
    }
    plain
}

/// `s` in double quotes.
pub open spec fn quoted(s: Seq<char>) -> Seq<char> {
    seq!['"'] + s + seq!['"']
}

/// One entry of a summary as it is shown: `"key": "value"`.
pub open spec fn entry_text(e: (Seq<char>, Seq<char>)) -> Seq<char> {
    quoted(e.0) + seq![':', ' '] + quoted(e.1)
}

/// The entries of a summary as they are shown, separated by `, `.
pub open spec fn entries_text(e: Seq<(Seq<char>, Seq<char>)>) -> Seq<char>
    decreases e.len(),
{
    if e.len() == 0 {
        Seq::empty()
    } else if e.len() == 1 {
        entry_text(e[0])
    } else {
        entries_text(e.drop_last()) + seq![',', ' '] + entry_text(e.last())
    }
}

/// The line that shows one summary; all but the last line end in a comma.
pub open spec fn shot_line(e: Seq<(Seq<char>, Seq<char>)>, last: bool) -> Seq<char> {
    seq![' ', ' ', '{'] + entries_text(e) + if last {
        seq!['}', '\n']
    } else {
        seq!['}', ',', '\n']
    }
}

/// The lines of summaries that are followed by others.
pub open spec fn leading_lines(s: Seq<Seq<(Seq<char>, Seq<char>)>>) -> Seq<char>
    decreases s.len(),
{
    if s.len() == 0 {
        Seq::empty()
    } else {
        leading_lines(s.drop_last()) + shot_line(s.last(), false)
    }
}

/// How a list of summaries is shown: one line each between `[` and `]`.
pub open spec fn results_text(s: Seq<Seq<(Seq<char>, Seq<char>)>>) -> Seq<char> {
    seq!['[', '\n'] + if s.len() == 0 {
        Seq::<char>::empty()
    } else {
        leading_lines(s.drop_last()) + shot_line(s.last(), true)
    } + seq![']']
}

/// The entries of each summary, in key order.
pub open spec fn summary_entries(shots: Seq<TextMap<String>>) -> Seq<Seq<(Seq<char>, Seq<char>)>> {
    shots.map_values(|m: TextMap<String>| m.entry_views())
}

/// Appends the line that shows one summary.
fn push_shot_line(out: &mut Vec<char>, shot: &TextMap<String>, last: bool)
    ensures
        final(out)@ == old(out)@ + shot_line(shot.entry_views(), last),
{
    let ghost start = out@;
    let entries = shot.entries();
    let ghost e = shot.entry_views();
    out.push(' ');
    out.push(' ');
    out.push('{');
    let mut k: usize = 0;
    while k < entries.len()
        invariant
            k <= entries@.len() == e.len(),
            e == entries@.map_values(|x: (String, String)| (x.0@, x.1@)),
            out@ == start + seq![' ', ' ', '{'] + entries_text(e.take(k as int)),
        decreases entries@.len() - k,
    {
        let ghost before = out@;
        if k > 0 {
            out.push(',');
            out.push(' ');
        }
        let key = chars_of(entries[k].0.as_str());
        let value = chars_of(entries[k].1.as_str());
        out.push('"');
        append_chars(out, &key);
        out.push('"');
        out.push(':');
        out.push(' ');
        out.push('"');
        append_chars(out, &value);
        out.push('"');
        proof {
            let t = e.take(k + 1);
            assert(t.drop_last() =~= e.take(k as int));
            assert(t.last() == e[k as int]);
            assert(e[k as int] == (key@, value@));
            if k == 0 {
                assert(t.len() == 1 && t[0] == e[k as int]);
                assert(out@ =~= start + seq![' ', ' ', '{'] + entries_text(t));
            } else {
                assert(out@ =~= start + seq![' ', ' ', '{'] + entries_text(t));
            }
        }
        k = k + 1;
    }
    proof {
        assert(e.take(k as int) =~= e);
    }
    out.push('}');
    if !last {
        out.push(',');
    }
    out.push('\n');
    proof {
        assert(out@ =~= start + shot_line(e, last));
    }
}

impl ShotResults {
    /// The summaries as text: `[`, then a line `  {"key": "value", ...}` for each shot
    /// with its entries in key order (a comma after all but the last), then `]`.
    pub fn to_display_string(&self) -> (s: String)
        ensures
            s@ == results_text(summary_entries(self.shots@)),
    {
        let ghost all = summary_entries(self.shots@);
        let mut out: Vec<char> = Vec::new();
        out.push('[');
        out.push('\n');
        let n = self.shots.len();
        if n > 0 {
            let mut i: usize = 0;
            while i < n - 1
                invariant
                    i <= n - 1,
                    n == self.shots@.len(),
                    all == summary_entries(self.shots@),
                    out@ == seq!['[', '\n'] + leading_lines(all.take(i as int)),
                decreases n - 1 - i,
            {
                push_shot_line(&mut out, &self.shots[i], false);
                proof {
                    assert(all.take(i + 1).drop_last() =~= all.take(i as int));
                    assert(all[i as int] == self.shots@[i as int].entry_views());
                    assert(out@ =~= seq!['[', '\n'] + leading_lines(all.take(i + 1)));
                }
                i = i + 1;
            }
            push_shot_line(&mut out, &self.shots[n - 1], true);
            proof {
                assert(all.drop_last() =~= all.take(n - 1));
                assert(all.last() == self.shots@[n - 1].entry_views());
            }
        }
        out.push(']');
        proof {
            assert(out@ =~= results_text(all));
        }
        string_from_chars(&out)
    }
}

/// A gate of a command. Angles are in radians, held as the bits of an IEEE-754 binary64
/// number (as `f64::to_bits` gives them).
#[derive(Debug, Clone, Copy, PartialEq, Eq, Structural)]
pub enum GateType {
    RZ { theta: u64 },
    R1XY { phi: u64, theta: u64 },
    SZZ,
    H,
    CX,
    Measure { result_id: usize },
}

/// A gate applied to qubits.
#[derive(Debug, Clone)]
pub struct QuantumCommand {
    pub gate: GateType,
    pub qubits: Vec<usize>,
}

/// A parse result taken by its view: its gate and qubits, or the error's text.
pub open spec fn command_view(r: Result<QuantumCommand, String>) -> Result<
    (GateType, Seq<usize>),
    Seq<char>,
> {
    match r {
        Ok(c) => Ok((c.gate, c.qubits@)),
        Err(m) => Err(m@),
    }
}

/// The qubit index or id that the word `t` gives, or the error labelled `label`.
pub open spec fn index_arg(t: Seq<char>, label: Seq<char>) -> Result<usize, Seq<char>> {
    match usize_text_value(t) {
        Some(v) => Ok(v),
        None => Err(label + usize_error_text(t)),
    }
}

/// The angle that reading a word gave, or its error labelled `label`.
pub open spec fn angle_arg(a: Result<u64, Seq<char>>, label: Seq<char>) -> Result<u64, Seq<char>> {
    match a {
        Ok(b) => Ok(b),
        Err(m) => Err(label + m),
    }
}

/// The text `a` followed by the text `b`.
pub(crate) fn join_text(a: &str, b: &String) -> (r: String)
    ensures
        r@ == a@ + b@,
{
    let mut v = chars_of(a);
    let w = chars_of(b.as_str());
    append_chars(&mut v, &w);
    string_from_chars(&v)
}

/// Reads a qubit index or id from a word (see `index_arg`).
pub(crate) fn index_word(t: &String, label: &str) -> (r: Result<usize, String>)
    ensures
        match r {
            Ok(v) => index_arg(t@, label@) == Ok::<usize, Seq<char>>(v),
            Err(m) => index_arg(t@, label@) == Err::<usize, Seq<char>>(m@),
        },
{
    match parse_usize(t.as_str()) {
        Ok(v) => Ok(v),
        Err(m) => Err(join_text(label, &m)),
    }
}

/// Takes the reading of an angle word (see `angle_arg`).
pub(crate) fn angle_word(a: &Result<u64, String>, label: &str) -> (r: Result<u64, String>)
    ensures
        match r {
            Ok(v) => angle_arg(result_text(*a), label@) == Ok::<u64, Seq<char>>(v),
            Err(m) => angle_arg(result_text(*a), label@) == Err::<u64, Seq<char>>(m@),
        },
{
    match a {
        Ok(b) => Ok(*b),
        Err(m) => Err(join_text(label, m)),
    }
}

/// A result whose error is text, taken by the text's view.
pub open spec fn result_text<T>(r: Result<T, String>) -> Result<T, Seq<char>> {
    match r {
        Ok(v) => Ok(v),
        Err(m) => Err(m@),
    }
}

/// Whether the word `w` is the text `name`.
pub(crate) fn word_is(w: &String, name: &str) -> (b: bool)
    ensures
        b == (w@ == name@),
{
    let a = chars_of(w.as_str());
    let b = chars_of(name);
    chars_equal(&a, &b)
}

/// How the words of a command read, given what reading each word as an angle gave:
/// `RZ theta qubit`, `R1XY phi theta qubit`, `SZZ qubit1 qubit2`, `H qubit`,
/// `CX control target` and `M qubit result_id`.
pub open spec fn command_form(parts: Seq<Seq<char>>, angles: Seq<Result<u64, Seq<char>>>) -> Result<
    (GateType, Seq<usize>),
    Seq<char>,
> {
    if parts.len() == 0 {
        Err("Unknown command type: <empty>"@)
    } else if parts[0] == "RZ"@ {
        if parts.len() != 3 {
            Err("Invalid RZ format"@)
        } else {
            match angle_arg(angles[1], "Invalid theta: "@) {
                Err(m) => Err(m),
                Ok(theta) => match index_arg(parts[2], "Invalid qubit: "@) {
                    Err(m) => Err(m),
                    Ok(q) => Ok((GateType::RZ { theta }, seq![q])),
                },
            }
        }
    } else if parts[0] == "R1XY"@ {
        if parts.len() != 4 {
            Err("Invalid R1XY format"@)
        } else {
            match angle_arg(angles[1], "Invalid phi: "@) {
                Err(m) => Err(m),
                Ok(phi) => match angle_arg(angles[2], "Invalid theta: "@) {
                    Err(m) => Err(m),
                    Ok(theta) => match index_arg(parts[3], "Invalid qubit: "@) {
                        Err(m) => Err(m),
                        Ok(q) => Ok((GateType::R1XY { phi, theta }, seq![q])),
                    },
                },
            }
        }
    } else if parts[0] == "SZZ"@ {
        if parts.len() != 3 {
            Err("Invalid SZZ format"@)
        } else {
            match index_arg(parts[1], "Invalid qubit1: "@) {
                Err(m) => Err(m),
                Ok(q1) => match index_arg(parts[2], "Invalid qubit2: "@) {
                    Err(m) => Err(m),
                    Ok(q2) => Ok((GateType::SZZ, seq![q1, q2])),
                },
            }
        }
    } else if parts[0] == "H"@ {
        if parts.len() != 2 {
            Err("Invalid H format"@)
        } else {
            match index_arg(parts[1], "Invalid qubit: "@) {
                Err(m) => Err(m),
                Ok(q) => Ok((GateType::H, seq![q])),
            }
        }
    } else if parts[0] == "CX"@ {
        if parts.len() != 3 {
            Err("Invalid CX format"@)
        } else {
            match index_arg(parts[1], "Invalid control qubit: "@) {
                Err(m) => Err(m),
                Ok(c) => match index_arg(parts[2], "Invalid target qubit: "@) {
                    Err(m) => Err(m),
                    Ok(t) => Ok((GateType::CX, seq![c, t])),
                },
            }
        }
    } else if parts[0] == "M"@ {
        if parts.len() != 3 {
            Err("Invalid M format"@)
        } else {
            match index_arg(parts[2], "Invalid result_id: "@) {
                Err(m) => Err(m),
                Ok(result_id) => match index_arg(parts[1], "Invalid qubit: "@) {
                    Err(m) => Err(m),
                    Ok(q) => Ok((GateType::Measure { result_id }, seq![q])),
                },
            }
        }
    } else {
        Err("Unknown command type: "@ + parts[0])
    }
}

/// The views of a list of words.
pub open spec fn word_views(parts: Seq<String>) -> Seq<Seq<char>> {
    parts.map_values(|w: String| w@)
}

/// The readings of a list of angle words, their errors taken by view.
pub open spec fn angle_views(angles: Seq<Result<u64, String>>) -> Seq<Result<u64, Seq<char>>> {
    angles.map_values(|a: Result<u64, String>| result_text(a))
}

/// A vector of one index.
fn one_index(a: usize) -> (v: Vec<usize>)
    ensures
        v@ == seq![a],
{
    let mut v: Vec<usize> = Vec::new();
    v.push(a);
    proof {
        assert(v@ =~= seq![a]);
    }
    v
}

/// A vector of two indices.
fn two_indices(a: usize, b: usize) -> (v: Vec<usize>)
    ensures
        v@ == seq![a, b],
{
    let mut v: Vec<usize> = Vec::new();
    v.push(a);
    v.push(b);
    proof {
        assert(v@ =~= seq![a, b]);
    }
    v
}

impl QuantumCommand {
    /// Builds a command from its words (as `split_whitespace` gives them) and what
    /// reading each word as an angle in radians gave (see `command_form`).
    pub fn from_parts(parts: &Vec<String>, angles: &Vec<Result<u64, String>>) -> (r: Result<
        Self,
        String,
    >)
        requires
            angles@.len() == parts@.len(),
        ensures
            command_view(r) == command_form(word_views(parts@), angle_views(angles@)),
    {
        let ghost w = word_views(parts@);
        let ghost a = angle_views(angles@);
        let n = parts.len();
        proof {
            assert(n > 0 ==> w[0] == parts@[0]@);
            assert(n > 1 ==> w[1] == parts@[1]@ && a[1] == result_text(angles@[1]));
            assert(n > 2 ==> w[2] == parts@[2]@ && a[2] == result_text(angles@[2]));
            assert(n > 3 ==> w[3] == parts@[3]@);
        }
        if n == 0 {
            return Err("Unknown command type: <empty>".to_string());
        }
        if word_is(&parts[0], "RZ") {
            if n != 3 {
                return Err("Invalid RZ format".to_string());
            }
            let theta = match angle_word(&angles[1], "Invalid theta: ") {
                Ok(v) => v,
                Err(m) => {
                    return Err(m);
                },
            };
            let q = match index_word(&parts[2], "Invalid qubit: ") {
                Ok(v) => v,
                Err(m) => {
                    return Err(m);
                },
            };
            Ok(QuantumCommand { gate: GateType::RZ { theta }, qubits: one_index(q) })
        } else if word_is(&parts[0], "R1XY") {
            if n != 4 {
                return Err("Invalid R1XY format".to_string());
            }
            let phi = match angle_word(&angles[1], "Invalid phi: ") {
                Ok(v) => v,
                Err(m) => {
                    return Err(m);
                },
            };
            let theta = match angle_word(&angles[2], "Invalid theta: ") {
                Ok(v) => v,
                Err(m) => {
                    return Err(m);
                },
            };
            let q = match index_word(&parts[3], "Invalid qubit: ") {
                Ok(v) => v,
                Err(m) => {
                    return Err(m);
                },
            };
            Ok(QuantumCommand { gate: GateType::R1XY { phi, theta }, qubits: one_index(q) })
        } else if word_is(&parts[0], "SZZ") {
            if n != 3 {
                return Err("Invalid SZZ format".to_string());
            }
            let q1 = match index_word(&parts[1], "Invalid qubit1: ") {
                Ok(v) => v,
                Err(m) => {
                    return Err(m);
                },
            };
            let q2 = match index_word(&parts[2], "Invalid qubit2: ") {
                Ok(v) => v,
                Err(m) => {
                    return Err(m);
                },
            };
            Ok(QuantumCommand { gate: GateType::SZZ, qubits: two_indices(q1, q2) })
        } else if word_is(&parts[0], "H") {
            if n != 2 {
                return Err("Invalid H format".to_string());
            }
            let q = match index_word(&parts[1], "Invalid qubit: ") {
                Ok(v) => v,
                Err(m) => {
                    return Err(m);
                },
            };
            Ok(QuantumCommand { gate: GateType::H, qubits: one_index(q) })
        } else if word_is(&parts[0], "CX") {
            if n != 3 {
                return Err("Invalid CX format".to_string());
            }
            let c = match index_word(&parts[1], "Invalid control qubit: ") {
                Ok(v) => v,
                Err(m) => {
                    return Err(m);
                },
            };
            let t = match index_word(&parts[2], "Invalid target qubit: ") {
                Ok(v) => v,
                Err(m) => {
                    return Err(m);
                },
            };
            Ok(QuantumCommand { gate: GateType::CX, qubits: two_indices(c, t) })
        } else if word_is(&parts[0], "M") {
            if n != 3 {
                return Err("Invalid M format".to_string());
            }
            let result_id = match index_word(&parts[2], "Invalid result_id: ") {
                Ok(v) => v,
                Err(m) => {
                    return Err(m);
                },
            };
            let q = match index_word(&parts[1], "Invalid qubit: ") {
                Ok(v) => v,
                Err(m) => {
                    return Err(m);
                },
            };
            Ok(QuantumCommand { gate: GateType::Measure { result_id }, qubits: one_index(q) })
        } else {
            Err(join_text("Unknown command type: ", &parts[0]))
        }
    }
}

} // verus!
