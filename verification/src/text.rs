use vstd::prelude::*;

verus! {

/// Unicode `White_Space`: the characters that `char::is_whitespace` accepts.
pub open spec fn is_white_space(c: char) -> bool {
    ||| '\u{9}' <= c <= '\u{d}'
    ||| c == ' '
    ||| c == '\u{85}'
    ||| c == '\u{a0}'
    ||| c == '\u{1680}'
    ||| '\u{2000}' <= c <= '\u{200a}'
    ||| c == '\u{2028}'
    ||| c == '\u{2029}'
    ||| c == '\u{202f}'
    ||| c == '\u{205f}'
    ||| c == '\u{3000}'
}

/// Whether `c` is a Unicode white-space character.
pub fn is_whitespace(c: char) -> (b: bool)
    ensures
        b == is_white_space(c),
{
    ('\u{9}' <= c && c <= '\u{d}') || c == ' ' || c == '\u{85}' || c == '\u{a0}' || c
        == '\u{1680}' || ('\u{2000}' <= c && c <= '\u{200a}') || c == '\u{2028}' || c
        == '\u{2029}' || c == '\u{202f}' || c == '\u{205f}' || c == '\u{3000}'
}

/// Whether `c` is one of `0` to `9`.
pub open spec fn is_digit(c: char) -> bool {
    '0' <= c <= '9'
}

/// The characters of a string slice, in order.
pub fn chars_of(s: &str) -> (v: Vec<char>)
    ensures
        v@ == s@,
{
    let mut v: Vec<char> = Vec::new();
    for c in it: s.chars()
        invariant
            it.seq() == s@,
            v@ == it.seq().take(it.index() as int),
    {
        v.push(c);
        proof {
            assert(v@ =~= it.seq().take(it.index() + 1));
        }
    }
    proof {
        assert(v@ =~= s@);
    }
    v
}


/// `s` without leading white space.
pub open spec fn trim_start(s: Seq<char>) -> Seq<char>
    decreases s.len(),
{
    if s.len() > 0 && is_white_space(s[0]) {
        trim_start(s.drop_first())
    } else {
        s
    }
}

/// `s` without trailing white space.
pub open spec fn trim_end(s: Seq<char>) -> Seq<char>
    decreases s.len(),
{
    if s.len() > 0 && is_white_space(s.last()) {
        trim_end(s.drop_last())
    } else {
        s
    }
}

/// `s` without leading and trailing white space, as `str::trim` gives it.
pub open spec fn trim(s: Seq<char>) -> Seq<char> {
    trim_end(trim_start(s))
}

/// Copies `v[from..to]` into a new vector.
fn copy_range(v: &Vec<char>, from: usize, to: usize) -> (r: Vec<char>)
    requires
        from <= to <= v.len(),
    ensures
        r@ == v@.subrange(from as int, to as int),
{
    let mut r: Vec<char> = Vec::new();
    let mut k = from;
    while k < to
        invariant
            from <= k <= to <= v.len(),
            r@ == v@.subrange(from as int, k as int),
        decreases to - k,
    {
        r.push(v[k]);
        k = k + 1;
        proof {
            assert(r@ =~= v@.subrange(from as int, k as int));
        }
    }
    r
}

/// The characters of `v` without leading and trailing white space.
pub fn trim_chars(v: &Vec<char>) -> (r: Vec<char>)
    ensures
        r@ == trim(v@),
{
    let n = v.len();
    let mut i: usize = 0;
    proof {
        assert(v@.skip(0) =~= v@);
    }
    while i < n && is_whitespace(v[i])
        invariant
            i <= n == v.len(),
            trim_start(v@) == trim_start(v@.skip(i as int)),
        decreases n - i,
    {
        proof {
            assert(v@.skip(i as int).drop_first() =~= v@.skip(i + 1));
        }
        i = i + 1;
    }
    proof {
        assert(v@.skip(i as int) =~= v@.subrange(i as int, n as int));
    }
    let mut j: usize = n;
    while j > i && is_whitespace(v[j - 1])
        invariant
            i <= j <= n == v.len(),
            trim_start(v@) == v@.subrange(i as int, n as int),
            trim_end(v@.subrange(i as int, n as int)) == trim_end(v@.subrange(i as int, j as int)),
        decreases j,
    {
        proof {
            assert(v@.subrange(i as int, j as int).drop_last() =~= v@.subrange(i as int, j - 1));
        }
        j = j - 1;
    }
    copy_range(v, i, j)
}

/// `s` with every occurrence of `a` and of `b` removed.
pub open spec fn without(s: Seq<char>, a: char, b: char) -> Seq<char>
    decreases s.len(),
{
    if s.len() == 0 {
        s
    } else if s.last() == a || s.last() == b {
        without(s.drop_last(), a, b)
    } else {
        without(s.drop_last(), a, b).push(s.last())
    }
}

/// The characters of `v` with every occurrence of `a` and of `b` removed.
pub fn remove_chars(v: &Vec<char>, a: char, b: char) -> (r: Vec<char>)
    ensures
        r@ == without(v@, a, b),
{
    let mut r: Vec<char> = Vec::new();
    let mut k: usize = 0;
    while k < v.len()
        invariant
            k <= v.len(),
            r@ == without(v@.take(k as int), a, b),
        decreases v.len() - k,
    {
        proof {
            assert(v@.take(k + 1).drop_last() =~= v@.take(k as int));
        }
        let c = v[k];
        if c != a && c != b {
            r.push(c);
        }
        k = k + 1;
    }
    proof {
        assert(v@.take(k as int) =~= v@);
    }
    r
}

/// Whether `s` has the two characters `pi` at index `i`.
pub open spec fn pi_at(s: Seq<char>, i: int) -> bool {
    0 <= i && i + 1 < s.len() && s[i] == 'p' && s[i + 1] == 'i'
}

/// `s` with the occurrences of `pi` removed, scanning from the left as `str::replace`
/// does with an empty replacement.
pub open spec fn remove_pi_text(s: Seq<char>) -> Seq<char>
    decreases s.len(),
{
    if s.len() == 0 {
        s
    } else if pi_at(s, 0) {
        remove_pi_text(s.skip(2))
    } else {
        seq![s[0]] + remove_pi_text(s.skip(1))
    }
}

/// The characters of `v` with every `pi` removed, scanning from the left.
pub fn remove_pi_chars(v: &Vec<char>) -> (r: Vec<char>)
    ensures
        r@ == remove_pi_text(v@),
{
    let mut r: Vec<char> = Vec::new();
    let mut k: usize = 0;
    let n = v.len();
    proof {
        assert(v@.skip(0) =~= v@);
        assert(r@ + remove_pi_text(v@) =~= remove_pi_text(v@));
    }
    while k < n
        invariant
            k <= n == v.len(),
            r@ + remove_pi_text(v@.skip(k as int)) == remove_pi_text(v@),
        decreases n - k,
    {
        let ghost rest = v@.skip(k as int);
        if k + 1 < n && v[k] == 'p' && v[k + 1] == 'i' {
            proof {
                assert(pi_at(rest, 0));
                assert(rest.skip(2) =~= v@.skip(k + 2));
            }
            k = k + 2;
        } else {
            proof {
                assert(!pi_at(rest, 0));
                assert(rest.skip(1) =~= v@.skip(k + 1));
                assert(r@.push(v@[k as int]) + remove_pi_text(rest.skip(1)) =~= r@ + (seq![
                    rest[0],
                ] + remove_pi_text(rest.skip(1))));
            }
            r.push(v[k]);
            k = k + 1;
        }
    }
    proof {
        assert(v@.skip(k as int) =~= Seq::<char>::empty());
        assert(r@ + Seq::<char>::empty() =~= r@);
    }
    r
}

/// Whether `s` is a plain decimal number: an optional leading `-`, digits with at most
/// one `.` among them, not starting with `.`, and at least one digit.
pub open spec fn is_decimal_text(s: Seq<char>) -> bool {
    &&& !(s.len() > 0 && s[0] == '.')
    &&& forall|i: int|
        0 <= i < s.len() ==> (s[i] == '-' && i == 0) || s[i] == '.' || is_digit(#[trigger] s[i])
    &&& forall|i: int, j: int| 0 <= i < j < s.len() && s[i] == '.' ==> s[j] != '.'
    &&& exists|i: int| 0 <= i < s.len() && is_digit(#[trigger] s[i])
}

/// Whether the characters of `v` form a plain decimal number (see `is_decimal_text`).
pub fn is_decimal_chars(v: &Vec<char>) -> (b: bool)
    ensures
        b == is_decimal_text(v@),
{
    let n = v.len();
    if n > 0 && v[0] == '.' {
        return false;
    }
    let mut seen_dot = false;
    let mut saw_digit = false;
    let mut k: usize = 0;
    while k < n
        invariant
            k <= n == v.len(),
            !(n > 0 && v@[0] == '.'),
            forall|i: int|
                0 <= i < k ==> (v@[i] == '-' && i == 0) || v@[i] == '.' || is_digit(
                    #[trigger] v@[i],
                ),
            forall|i: int, j: int| 0 <= i < j < k && v@[i] == '.' ==> v@[j] != '.',
            seen_dot == (exists|i: int| 0 <= i < k && v@[i] == '.'),
            saw_digit == (exists|i: int| 0 <= i < k && is_digit(#[trigger] v@[i])),
        decreases n - k,
    {
        let c = v[k];
        if c == '-' && k == 0 {
        } else if c == '.' {
            if seen_dot {
                proof {
                    let i = choose|i: int| 0 <= i < k && v@[i] == '.';
                    assert(0 <= i < k < n && v@[i] == '.' && v@[k as int] == '.');
                }
                return false;
            }
            seen_dot = true;
        } else if '0' <= c && c <= '9' {
            saw_digit = true;
        } else {
            proof {
                assert(!((v@[k as int] == '-' && k == 0) || v@[k as int] == '.' || is_digit(
                    v@[k as int],
                )));
            }
            return false;
        }
        k = k + 1;
    }
    saw_digit
}

/// Whether the string slice `s` is a plain decimal number (see `is_decimal_text`).
pub fn is_valid_decimal(s: &str) -> (b: bool)
    ensures
        b == is_decimal_text(s@),
{
    let v = chars_of(s);
    is_decimal_chars(&v)
}

/// Whether every character of `s` is a decimal digit.
pub open spec fn all_digits(s: Seq<char>) -> bool {
    forall|i: int| 0 <= i < s.len() ==> is_digit(#[trigger] s[i])
}

/// The number that the digits `s` spell in base ten.
pub open spec fn digits_value(s: Seq<char>) -> nat
    decreases s.len(),
{
    if s.len() == 0 {
        0
    } else {
        10 * digits_value(s.drop_last()) + ((s.last() as int) - ('0' as int)) as nat
    }
}

/// The integer that `s` spells: digits, with a leading `+` or `-` allowed, as the
/// standard integer parsers read decimal text; `None` where `s` has another form.
pub open spec fn integer_text_value(s: Seq<char>) -> Option<int> {
    if s.len() > 1 && (s[0] == '+' || s[0] == '-') && all_digits(s.skip(1)) {
        Some(
            if s[0] == '-' {
                -(digits_value(s.skip(1)) as int)
            } else {
                digits_value(s.skip(1)) as int
            },
        )
    } else if s.len() > 0 && all_digits(s) {
        Some(digits_value(s) as int)
    } else {
        None
    }
}

/// What parsing `s` as an `i64` gives: its value where it is integer text within range.
pub open spec fn i64_text_value(s: Seq<char>) -> Option<i64> {
    match integer_text_value(s) {
        Some(v) => if i64::MIN <= v <= i64::MAX {
            Some(v as i64)
        } else {
            None
        },
        None => None,
    }
}

/// Whether `s` is a non-empty run of digits, or `-` followed by a non-empty run of
/// digits.
pub open spec fn is_signed_digits_text(s: Seq<char>) -> bool {
    (s.len() > 1 && s[0] == '-' && all_digits(s.skip(1))) || (s.len() > 0 && all_digits(s))
}

/// Appending digits never makes a number smaller.
pub proof fn lemma_digits_value_prefix(s: Seq<char>, k: int)
    requires
        0 <= k <= s.len(),
        all_digits(s),
    ensures
        digits_value(s.take(k)) <= digits_value(s),
    decreases s.len(),
{
    if k < s.len() {
        let t = s.drop_last();
        assert(t.take(k) =~= s.take(k));
        assert(is_digit(s[s.len() - 1]));
        lemma_digits_value_prefix(t, k);
    } else {
        assert(s.take(k) =~= s);
    }
}

/// Whether the characters of `v` spell a decimal digit string, with or without a
/// leading `-`.
pub fn is_signed_digits_chars(v: &Vec<char>) -> (b: bool)
    ensures
        b == is_signed_digits_text(v@),
{
    let n = v.len();
    let start: usize = if n > 0 && v[0] == '-' {
        1
    } else {
        0
    };
    if n <= start {
        return false;
    }
    let mut k: usize = start;
    while k < n
        invariant
            start <= k <= n == v.len(),
            start == (if n > 0 && v@[0] == '-' {
                1int
            } else {
                0
            }),
            forall|i: int| start <= i < k ==> is_digit(#[trigger] v@[i]),
        decreases n - k,
    {
        if !('0' <= v[k] && v[k] <= '9') {
            proof {
                if start == 1 {
                    assert(v@.skip(1)[k - 1] == v@[k as int]);
                    assert(!all_digits(v@));
                } else {
                    assert(!all_digits(v@));
                }
            }
            return false;
        }
        k = k + 1;
    }
    proof {
        if start == 1 {
            assert forall|i: int| 0 <= i < v@.skip(1).len() implies is_digit(
                #[trigger] v@.skip(1)[i],
            ) by {
                assert(v@.skip(1)[i] == v@[i + 1]);
            }
        }
    }
    true
}

/// Parses the characters of `v` as an `i64`, as `str::parse::<i64>` does.
pub fn parse_i64_chars(v: &Vec<char>) -> (r: Option<i64>)
    ensures
        r == i64_text_value(v@),
{
    let n = v.len();
    if n == 0 {
        return None;
    }
    let signed = v[0] == '+' || v[0] == '-';
    let negative = v[0] == '-';
    let start: usize = if signed {
        1
    } else {
        0
    };
    if start == n {
        return None;
    }
    let ghost body = v@.skip(start as int);
    let mut mag: u64 = 0;
    let mut k: usize = start;
    proof {
        assert(v@.subrange(start as int, start as int) =~= Seq::<char>::empty());
    }
    while k < n
        invariant
            start <= k <= n == v.len(),
            start < n,
            signed == (v@[0] == '+' || v@[0] == '-'),
            start == (if signed {
                1int
            } else {
                0
            }),
            body == v@.skip(start as int),
            all_digits(v@.subrange(start as int, k as int)),
            mag == digits_value(v@.subrange(start as int, k as int)),
        decreases n - k,
    {
        let c = v[k];
        let ghost pre = v@.subrange(start as int, k as int);
        let ghost next = v@.subrange(start as int, k + 1);
        proof {
            assert(next.drop_last() =~= pre);
            assert(next.last() == c);
        }
        if !('0' <= c && c <= '9') {
            proof {
                assert(body[k - start] == c);
                assert(!all_digits(body));
                assert(!all_digits(v@)) by {
                    if signed {
                        assert(!is_digit(v@[0]));
                    } else {
                        assert(v@[k as int] == c);
                    }
                }
            }
            return None;
        }
        let d: u64 = (c as u32 - '0' as u32) as u64;
        proof {
            assert(next == body.take(k + 1 - start));
            assert(all_digits(next));
        }
        match mag.checked_mul(10) {
            None => {
                proof {
                    assert(digits_value(next) > u64::MAX);
                    if all_digits(body) {
                        lemma_digits_value_prefix(body, k + 1 - start);
                    }
                    if !signed && all_digits(v@) {
                        assert(v@ =~= body);
                    }
                }
                return None;
            },
            Some(m) => match m.checked_add(d) {
                None => {
                    proof {
                        assert(digits_value(next) > u64::MAX);
                        if all_digits(body) {
                            lemma_digits_value_prefix(body, k + 1 - start);
                        }
                        if !signed && all_digits(v@) {
                            assert(v@ =~= body);
                        }
                    }
                    return None;
                },
                Some(t) => {
                    mag = t;
                },
            },
        }
        k = k + 1;
    }
    proof {
        assert(v@.subrange(start as int, n as int) =~= body);
        if !signed {
            assert(v@ =~= body);
        }
    }
    if negative {
        if mag <= 9223372036854775808u64 {
            if mag == 9223372036854775808u64 {
                Some(i64::MIN)
            } else {
                Some(-(mag as i64))
            }
        } else {
            None
        }
    } else if mag <= 9223372036854775807u64 {
        Some(mag as i64)
    } else {
        None
    }
}

/// The index of the first `c` in `s`, or the length of `s` where there is none.
pub open spec fn find_char(s: Seq<char>, c: char) -> nat
    decreases s.len(),
{
    if s.len() == 0 {
        0
    } else if s[0] == c {
        0
    } else {
        1 + find_char(s.drop_first(), c)
    }
}

/// The index of the first `pi` in `s`, or the length of `s` where there is none.
pub open spec fn find_pi(s: Seq<char>) -> nat
    decreases s.len(),
{
    if s.len() == 0 {
        0
    } else if pi_at(s, 0) {
        0
    } else {
        1 + find_pi(s.drop_first())
    }
}

/// The index of the first `c` among the characters of `v` (their number if none).
pub fn find_char_index(v: &Vec<char>, c: char) -> (k: usize)
    ensures
        k == find_char(v@, c),
        k <= v.len(),
{
    let n = v.len();
    let mut k: usize = 0;
    proof {
        assert(v@.skip(0) =~= v@);
    }
    while k < n && v[k] != c
        invariant
            k <= n == v.len(),
            find_char(v@, c) == k + find_char(v@.skip(k as int), c),
        decreases n - k,
    {
        proof {
            assert(v@.skip(k as int).drop_first() =~= v@.skip(k + 1));
        }
        k = k + 1;
    }
    k
}

/// The index of the first `pi` among the characters of `v` (their number if none).
pub fn find_pi_index(v: &Vec<char>) -> (k: usize)
    ensures
        k == find_pi(v@),
        k <= v.len(),
{
    let n = v.len();
    let mut k: usize = 0;
    proof {
        assert(v@.skip(0) =~= v@);
    }
    while k < n && !(k + 1 < n && v[k] == 'p' && v[k + 1] == 'i')
        invariant
            k <= n == v.len(),
            find_pi(v@) == k + find_pi(v@.skip(k as int)),
        decreases n - k,
    {
        proof {
            assert(!pi_at(v@.skip(k as int), 0));
            assert(v@.skip(k as int).drop_first() =~= v@.skip(k + 1));
        }
        k = k + 1;
    }
    proof {
        if k < n {
            assert(pi_at(v@.skip(k as int), 0));
        }
    }
    k
}

/// The characters of `v` from index `from` on.
pub fn chars_from(v: &Vec<char>, from: usize) -> (r: Vec<char>)
    requires
        from <= v.len(),
    ensures
        r@ == v@.skip(from as int),
{
    let r = copy_range(v, from, v.len());
    proof {
        assert(r@ =~= v@.skip(from as int));
    }
    r
}

/// The characters of `v` before index `to`.
pub fn chars_before(v: &Vec<char>, to: usize) -> (r: Vec<char>)
    requires
        to <= v.len(),
    ensures
        r@ == v@.take(to as int),
{
    let r = copy_range(v, 0, to);
    proof {
        assert(r@ =~= v@.take(to as int));
    }
    r
}

/// What `str::to_lowercase` makes of a text: Unicode's lowercase mapping, which depends on
/// the text alone (a capital sigma, for one, maps by its place in a word).
pub uninterp spec fn lowercase(s: Seq<char>) -> Seq<char>;

/// The lowercase of an ASCII character: `A`–`Z` become `a`–`z`, every other character
/// stays.
pub open spec fn ascii_lower(c: char) -> char {
    if 'A' <= c <= 'Z' {
        ((c as int) + 32) as char
    } else {
        c
    }
}

/// Whether every character of `s` is ASCII.
pub open spec fn is_ascii_text(s: Seq<char>) -> bool {
    forall|i: int| 0 <= i < s.len() ==> (#[trigger] s[i] as int) < 128
}

/// Trimming and dropping characters keep a text ASCII.
pub proof fn lemma_ascii_kept(s: Seq<char>, a: char, b: char)
    requires
        is_ascii_text(s),
    ensures
        is_ascii_text(trim_start(s)),
        is_ascii_text(trim_end(s)),
        is_ascii_text(trim(s)),
        is_ascii_text(without(s, a, b)),
    decreases s.len(),
{
    if s.len() > 0 {
        let f = s.drop_first();
        let l = s.drop_last();
        assert(is_ascii_text(f)) by {
            assert forall|i: int| 0 <= i < f.len() implies (#[trigger] f[i] as int) < 128 by {
                assert(f[i] == s[i + 1]);
            }
        }
        assert(is_ascii_text(l)) by {
            assert forall|i: int| 0 <= i < l.len() implies (#[trigger] l[i] as int) < 128 by {
                assert(l[i] == s[i]);
            }
        }
        lemma_ascii_kept(f, a, b);
        lemma_ascii_kept(l, a, b);
        let t = trim_start(s);
        lemma_ascii_kept_end(t);
        let w = without(l, a, b);
        assert(is_ascii_text(without(s, a, b))) by {
            if !(s.last() == a || s.last() == b) {
                assert forall|i: int| 0 <= i < w.push(s.last()).len() implies (#[trigger] w.push(
                    s.last(),
                )[i] as int) < 128 by {
                    if i < w.len() {
                        assert(w.push(s.last())[i] == w[i]);
                    } else {
                        assert(s[s.len() - 1] == s.last());
                    }
                }
            }
        }
    }
}

/// Trimming the end keeps a text ASCII.
proof fn lemma_ascii_kept_end(s: Seq<char>)
    requires
        is_ascii_text(s),
    ensures
        is_ascii_text(trim_end(s)),
    decreases s.len(),
{
    if s.len() > 0 {
        let l = s.drop_last();
        assert(is_ascii_text(l)) by {
            assert forall|i: int| 0 <= i < l.len() implies (#[trigger] l[i] as int) < 128 by {
                assert(l[i] == s[i]);
            }
        }
        lemma_ascii_kept_end(l);
    }
}

/// Calls `str::to_lowercase`; the result is the lowercase mapping `lowercase` of `s`. On
/// ASCII text, as its documentation and Unicode's mapping give, it maps `A`–`Z` to
/// `a`–`z` and keeps every other character.
#[verifier::external_body]
pub(crate) fn to_lowercase(s: &str) -> (r: String)
    ensures
        r@ == lowercase(s@),
        is_ascii_text(s@) ==> r@ == s@.map_values(|c: char| ascii_lower(c)),
{
    s.to_lowercase()
}

/// Collects characters into a `String` (`FromIterator<char>` of `String`); the string
/// holds exactly those characters.
#[verifier::external_body]
pub(crate) fn string_from_chars(v: &Vec<char>) -> (s: String)
    ensures
        s@ == v@,
{
    v.iter().collect()
}

/// The decimal digit character for `d < 10`.
pub open spec fn digit_char(d: nat) -> char {
    (('0' as int) + d) as char
}

/// The decimal notation of `n`, without leading zeros, as `to_string` writes integers.
pub open spec fn decimal_text(n: nat) -> Seq<char>
    decreases n,
{
    if n < 10 {
        seq![digit_char(n)]
    } else {
        decimal_text(n / 10).push(digit_char(n % 10))
    }
}

/// The decimal notation of `n`.
pub fn decimal_chars(n: u64) -> (v: Vec<char>)
    ensures
        v@ == decimal_text(n as nat),
    decreases n,
{
    let d: u8 = (n % 10) as u8;
    let c: char = (48u8 + d) as char;
    proof {
        assert(c == digit_char((n % 10) as nat));
    }
    if n < 10 {
        let mut v: Vec<char> = Vec::new();
        v.push(c);
        proof {
            assert(v@ =~= seq![c]);
        }
        v
    } else {
        let mut v = decimal_chars(n / 10);
        v.push(c);
        v
    }
}

/// Appends the characters of `w` to `v`.
pub fn append_chars(v: &mut Vec<char>, w: &Vec<char>)
    ensures
        final(v)@ == old(v)@ + w@,
{
    let ghost start = v@;
    let mut k: usize = 0;
    while k < w.len()
        invariant
            k <= w.len(),
            v@ == start + w@.take(k as int),
        decreases w.len() - k,
    {
        v.push(w[k]);
        k = k + 1;
        proof {
            assert(v@ =~= start + w@.take(k as int));
        }
    }
    proof {
        assert(w@.take(k as int) =~= w@);
    }
}

/// Splits text at white space: the completed words so far, and the word being read.
pub open spec fn word_scan(s: Seq<char>) -> (Seq<Seq<char>>, Seq<char>)
    decreases s.len(),
{
    if s.len() == 0 {
        (Seq::empty(), Seq::empty())
    } else {
        let (done, cur) = word_scan(s.drop_last());
        if is_white_space(s.last()) {
            if cur.len() > 0 {
                (done.push(cur), Seq::empty())
            } else {
                (done, cur)
            }
        } else {
            (done, cur.push(s.last()))
        }
    }
}

/// The words of `s`: its maximal runs of characters that are not white space, in order,
/// as `str::split_whitespace` gives them.
pub open spec fn words(s: Seq<char>) -> Seq<Seq<char>> {
    let (done, cur) = word_scan(s);
    if cur.len() > 0 {
        done.push(cur)
    } else {
        done
    }
}

/// The words of `s` (see `words`).
pub fn split_whitespace(s: &str) -> (r: Vec<String>)
    ensures
        r@.map_values(|w: String| w@) == words(s@),
{
    let v = chars_of(s);
    let mut done: Vec<String> = Vec::new();
    let mut cur: Vec<char> = Vec::new();
    let mut k: usize = 0;
    while k < v.len()
        invariant
            k <= v.len(),
            (done@.map_values(|w: String| w@), cur@) == word_scan(v@.take(k as int)),
        decreases v.len() - k,
    {
        let c = v[k];
        proof {
            assert(v@.take(k + 1).drop_last() =~= v@.take(k as int));
        }
        if is_whitespace(c) {
            if cur.len() > 0 {
                let w = string_from_chars(&cur);
                let ghost before = done@.map_values(|w: String| w@);
                done.push(w);
                proof {
                    assert(done@.map_values(|w: String| w@) =~= before.push(cur@));
                }
                cur = Vec::new();
            }
        } else {
            cur.push(c);
        }
        k = k + 1;
    }
    proof {
        assert(v@.take(k as int) =~= v@);
    }
    if cur.len() > 0 {
        let w = string_from_chars(&cur);
        let ghost before = done@.map_values(|w: String| w@);
        done.push(w);
        proof {
            assert(done@.map_values(|w: String| w@) =~= before.push(cur@));
        }
    }
    done
}

/// The value of `s` as a `usize`, as `str::parse::<usize>` reads it: digits, with a
/// leading `+` allowed, within range.
pub open spec fn usize_text_value(s: Seq<char>) -> Option<usize> {
    let v = if s.len() > 1 && s[0] == '+' && all_digits(s.skip(1)) {
        Some(digits_value(s.skip(1)))
    } else if s.len() > 0 && all_digits(s) {
        Some(digits_value(s))
    } else {
        None::<nat>
    };
    match v {
        Some(n) => if n <= usize::MAX {
            Some(n as usize)
        } else {
            None
        },
        None => None,
    }
}

/// The message of the error that `str::parse::<usize>` gives for the text `s`.
pub uninterp spec fn usize_error_text(s: Seq<char>) -> Seq<char>;

/// Calls `str::parse::<usize>`: the documented value on digit text within range, else the
/// error's message, named `usize_error_text`.
#[verifier::external_body]
pub(crate) fn parse_usize(s: &str) -> (r: Result<usize, String>)
    ensures
        match r {
            Ok(v) => usize_text_value(s@) == Some(v),
            Err(m) => usize_text_value(s@) is None && m@ == usize_error_text(s@),
        },
{
    s.parse::<usize>().map_err(|e| e.to_string())
}

/// The value of `s` as a `u32`, as `str::parse::<u32>` reads it: digits, with a leading
/// `+` allowed, within range.
pub open spec fn u32_text_value(s: Seq<char>) -> Option<u32> {
    match usize_text_value(s) {
        Some(n) => if n <= u32::MAX {
            Some(n as u32)
        } else {
            None
        },
        None => None,
    }
}

/// The message of the error that `str::parse::<u32>` gives for the text `s`.
pub uninterp spec fn u32_error_text(s: Seq<char>) -> Seq<char>;

/// Calls `str::parse::<u32>`: the documented value on digit text within range, else the
/// error's message, named `u32_error_text`.
#[verifier::external_body]
pub(crate) fn parse_u32(s: &str) -> (r: Result<u32, String>)
    ensures
        match r {
            Ok(v) => u32_text_value(s@) == Some(v),
            Err(m) => u32_text_value(s@) is None && m@ == u32_error_text(s@),
        },
{
    s.parse::<u32>().map_err(|e| e.to_string())
}

} // verus!
