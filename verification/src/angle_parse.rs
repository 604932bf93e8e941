use crate::angle::{full, ratio_fraction, Angle};
use crate::text::{
    chars_before, chars_from, chars_of, find_char, find_char_index, find_pi, find_pi_index,
    i64_text_value, is_decimal_chars, is_decimal_text, is_signed_digits_chars,
    is_signed_digits_text, lowercase, ascii_lower, is_ascii_text, lemma_ascii_kept,
    parse_i64_chars, remove_chars, remove_pi_chars, remove_pi_text, string_from_chars,
    to_lowercase, trim, trim_chars, without,
};
use crate::turn_word::TurnWord;
use vstd::prelude::*;

verus! {

/// Why the text of an angle could not be read.
#[derive(Debug, Clone, Copy, PartialEq, Eq)]
pub enum ParseAngleError {
    /// The text is not laid out as an angle.
    InvalidFormat,
    /// The numerator is not a number.
    InvalidNumerator,
    /// The denominator is not a number.
    InvalidDenominator,
    /// The denominator is zero.
    DivisionByZero,
    /// The value is too large to be represented.
    Overflow,
}

impl ParseAngleError {
    /// The error's description.
    pub fn message(&self) -> (s: &'static str)
        ensures
            *self == ParseAngleError::InvalidFormat ==> s@ == "invalid angle format"@,
            *self == ParseAngleError::InvalidNumerator ==> s@ == "invalid numerator"@,
            *self == ParseAngleError::InvalidDenominator ==> s@ == "invalid denominator"@,
            *self == ParseAngleError::DivisionByZero ==> s@ == "division by zero"@,
            *self == ParseAngleError::Overflow ==> s@ == "angle too large to represent"@,
    {
        match self {
            ParseAngleError::InvalidFormat => "invalid angle format",
            ParseAngleError::InvalidNumerator => "invalid numerator",
            ParseAngleError::InvalidDenominator => "invalid denominator",
            ParseAngleError::DivisionByZero => "division by zero",
            ParseAngleError::Overflow => "angle too large to represent",
        }
    }
}

/// The mathematical reading of an angle's text.
pub enum AngleForm {
    /// An exact multiple of π, as the fixed-point fraction of a turn it gives.
    Exact { fraction: nat },
    /// `numerator / denominator` radians.
    Ratio { numerator: int, denominator: int },
    /// A decimal number of radians, or of π radians where `times_pi` holds.
    Decimal { digits: Seq<char>, times_pi: bool },
}

/// What the text of an angle stands for.
///
/// Multiples of π are read exactly; other values are handed on as integers or decimal
/// digits, for a conversion from radians to finish.
#[derive(Debug, Clone, PartialEq)]
pub enum AngleText<T: TurnWord> {
    /// An exact multiple of π.
    Exact(Angle<T>),
    /// `numerator / denominator` radians.
    Ratio { numerator: i64, denominator: i64 },
    /// A decimal number of radians, or of π radians where `times_pi` holds.
    Decimal { digits: Vec<char>, times_pi: bool },
}

impl<T: TurnWord> View for AngleText<T> {
    type V = AngleForm;

    open spec fn view(&self) -> AngleForm {
        match self {
            AngleText::Exact(a) => AngleForm::Exact { fraction: a@ },
            AngleText::Ratio { numerator, denominator } => AngleForm::Ratio {
                numerator: *numerator as int,
                denominator: *denominator as int,
            },
            AngleText::Decimal { digits, times_pi } => AngleForm::Decimal {
                digits: digits@,
                times_pi: *times_pi,
            },
        }
    }
}

/// A parse result taken by its mathematical reading.
pub open spec fn parse_form<T: TurnWord>(r: Result<AngleText<T>, ParseAngleError>) -> Result<
    AngleForm,
    ParseAngleError,
> {
    match r {
        Ok(a) => Ok(a@),
        Err(e) => Err(e),
    }
}

/// Whether `s` mentions π, as `pi` or as `π`.
pub open spec fn has_pi(s: Seq<char>) -> bool {
    find_pi(s) < s.len() || find_char(s, 'π') < s.len()
}

/// The number that `n` spells as an `i64`; where it spells none, `Overflow` if it is
/// laid out as a signed digit string, else `InvalidNumerator`.
pub open spec fn integer_or_error(n: Seq<char>) -> Result<int, ParseAngleError> {
    match i64_text_value(n) {
        Some(v) => Ok(v as int),
        None => if is_signed_digits_text(n) {
            Err(ParseAngleError::Overflow)
        } else {
            Err(ParseAngleError::InvalidNumerator)
        },
    }
}

/// How text with a decimal point reads.
pub open spec fn decimal_form(t: Seq<char>) -> Result<AngleForm, ParseAngleError> {
    if find_char(t, '/') < t.len() {
        Err(ParseAngleError::InvalidNumerator)
    } else if has_pi(t) {
        let pi_pos = if find_pi(t) < t.len() {
            find_pi(t)
        } else {
            find_char(t, 'π')
        };
        if pi_pos < find_char(t, '.') {
            Err(ParseAngleError::InvalidNumerator)
        } else {
            let n = trim(without(remove_pi_text(t), 'π', 'π'));
            if is_decimal_text(n) {
                Ok(AngleForm::Decimal { digits: n, times_pi: true })
            } else {
                Err(ParseAngleError::InvalidNumerator)
            }
        }
    } else if is_decimal_text(t) {
        Ok(AngleForm::Decimal { digits: t, times_pi: false })
    } else {
        Err(ParseAngleError::InvalidNumerator)
    }
}

/// How the numerator of a ratio reads: its value, and whether it counts multiples of π.
pub open spec fn numerator_form(num: Seq<char>) -> Result<(int, bool), ParseAngleError> {
    if has_pi(num) {
        let n = without(remove_pi_text(num), 'π', 'π');
        if n.len() == 0 {
            Ok((1, true))
        } else if n == seq!['-'] {
            Ok((-1, true))
        } else {
            match integer_or_error(n) {
                Ok(v) => Ok((v, true)),
                Err(e) => Err(e),
            }
        }
    } else {
        match integer_or_error(num) {
            Ok(v) => Ok((v, false)),
            Err(e) => Err(e),
        }
    }
}

/// How the denominator reads: the text after the first `/`, or 1 where there is no `/`.
pub open spec fn denominator_form(t: Seq<char>) -> Result<int, ParseAngleError> {
    let k = find_char(t, '/');
    if k < t.len() {
        match i64_text_value(t.skip(k as int + 1)) {
            Some(d) => if d == 0 {
                Err(ParseAngleError::DivisionByZero)
            } else {
                Ok(d as int)
            },
            None => Err(ParseAngleError::InvalidDenominator),
        }
    } else {
        Ok(1)
    }
}

/// Whether `v` fits in an `i64`.
pub open spec fn fits_i64(v: int) -> bool {
    i64::MIN <= v <= i64::MAX
}

/// How text without a decimal point reads: a numerator, optionally over a denominator.
/// Multiples of π become exact angles of `T`; other ratios stay ratios of radians.
pub open spec fn fraction_form<T: TurnWord>(t: Seq<char>) -> Result<AngleForm, ParseAngleError> {
    match numerator_form(t.take(find_char(t, '/') as int)) {
        Err(e) => Err(e),
        Ok((num, pi)) => match denominator_form(t) {
            Err(e) => Err(e),
            Ok(den) => if pi && (!fits_i64(2 * num) || !fits_i64(2 * den)) {
                Err(ParseAngleError::Overflow)
            } else if pi {
                Ok(AngleForm::Exact { fraction: ratio_fraction(num, 2 * den, full::<T>()) })
            } else {
                Ok(AngleForm::Ratio { numerator: num, denominator: den })
            },
        },
    }
}

/// How the normalized text of an angle in radians reads, for angles of type `T`.
pub open spec fn radians_text_form<T: TurnWord>(t: Seq<char>) -> Result<AngleForm, ParseAngleError> {
    if t == seq!['p', 'i'] || t == seq!['π'] {
        Ok(AngleForm::Exact { fraction: ratio_fraction(1, 2, full::<T>()) })
    } else if t == seq!['-', 'p', 'i'] || t == seq!['-', 'π'] {
        Ok(AngleForm::Exact { fraction: ratio_fraction(-1, 2, full::<T>()) })
    } else if find_char(t, '.') < t.len() {
        decimal_form(t)
    } else {
        fraction_form::<T>(t)
    }
}

/// The text that is parsed: trimmed, without spaces and `*`, and in lower case.
pub open spec fn normalized_angle_text(s: Seq<char>) -> Seq<char> {
    lowercase(without(trim(s), ' ', '*'))
}

/// The value of `n` as an integer, or the error it gives (see `integer_or_error`).
fn integer_or_error_chars(n: &Vec<char>) -> (r: Result<i64, ParseAngleError>)
    ensures
        match r {
            Ok(v) => integer_or_error(n@) == Ok::<int, ParseAngleError>(v as int),
            Err(e) => integer_or_error(n@) == Err::<int, ParseAngleError>(e),
        },
{
    match parse_i64_chars(n) {
        Some(v) => Ok(v),
        None => if is_signed_digits_chars(n) {
            Err(ParseAngleError::Overflow)
        } else {
            Err(ParseAngleError::InvalidNumerator)
        },
    }
}

/// Whether the characters of `v` mention π.
fn has_pi_chars(v: &Vec<char>) -> (b: bool)
    ensures
        b == has_pi(v@),
{
    find_pi_index(v) < v.len() || find_char_index(v, 'π') < v.len()
}

/// Reads text that holds a decimal point (see `decimal_form`).
fn decimal_text<T: TurnWord>(t: &Vec<char>) -> (r: Result<AngleText<T>, ParseAngleError>)
    ensures
        parse_form(r) == decimal_form(t@),
{
    if find_char_index(t, '/') < t.len() {
        return Err(ParseAngleError::InvalidNumerator);
    }
    let pp = find_pi_index(t);
    let sym = find_char_index(t, 'π');
    if pp < t.len() || sym < t.len() {
        let pi_pos = if pp < t.len() {
            pp
        } else {
            sym
        };
        if pi_pos < find_char_index(t, '.') {
            return Err(ParseAngleError::InvalidNumerator);
        }
        let a = remove_pi_chars(t);
        let b = remove_chars(&a, 'π', 'π');
        let n = trim_chars(&b);
        if is_decimal_chars(&n) {
            Ok(AngleText::Decimal { digits: n, times_pi: true })
        } else {
            Err(ParseAngleError::InvalidNumerator)
        }
    } else if is_decimal_chars(t) {
        let digits = chars_from(t, 0);
        proof {
            assert(digits@ =~= t@);
        }
        Ok(AngleText::Decimal { digits, times_pi: false })
    } else {
        Err(ParseAngleError::InvalidNumerator)
    }
}

/// Reads the numerator of a ratio (see `numerator_form`).
fn numerator_text(num: &Vec<char>) -> (r: Result<(i64, bool), ParseAngleError>)
    ensures
        match r {
            Ok((v, pi)) => numerator_form(num@) == Ok::<(int, bool), ParseAngleError>(
                (v as int, pi),
            ),
            Err(e) => numerator_form(num@) == Err::<(int, bool), ParseAngleError>(e),
        },
{
    if has_pi_chars(num) {
        let a = remove_pi_chars(num);
        let n = remove_chars(&a, 'π', 'π');
        if n.len() == 0 {
            Ok((1, true))
        } else if n.len() == 1 && n[0] == '-' {
            proof {
                assert(n@ =~= seq!['-']);
            }
            Ok((-1, true))
        } else {
            proof {
                assert(n@ != seq!['-']) by {
                    if n@ == seq!['-'] {
                        assert(n@.len() == 1 && n@[0] == '-');
                    }
                }
            }
            match integer_or_error_chars(&n) {
                Ok(v) => Ok((v, true)),
                Err(e) => Err(e),
            }
        }
    } else {
        match integer_or_error_chars(num) {
            Ok(v) => Ok((v, false)),
            Err(e) => Err(e),
        }
    }
}

/// Reads the denominator (see `denominator_form`).
fn denominator_text(t: &Vec<char>) -> (r: Result<i64, ParseAngleError>)
    ensures
        match r {
            Ok(d) => denominator_form(t@) == Ok::<int, ParseAngleError>(d as int) && d != 0,
            Err(e) => denominator_form(t@) == Err::<int, ParseAngleError>(e),
        },
{
    let k = find_char_index(t, '/');
    if k < t.len() {
        let d = chars_from(t, k + 1);
        match parse_i64_chars(&d) {
            Some(v) => if v == 0 {
                Err(ParseAngleError::DivisionByZero)
            } else {
                Ok(v)
            },
            None => Err(ParseAngleError::InvalidDenominator),
        }
    } else {
        Ok(1)
    }
}

/// Reads text without a decimal point (see `fraction_form`).
fn fraction_text<T: TurnWord>(t: &Vec<char>) -> (r: Result<AngleText<T>, ParseAngleError>)
    ensures
        parse_form(r) == fraction_form::<T>(t@),
{
    let k = find_char_index(t, '/');
    let num_part = chars_before(t, k);
    let (num, pi) = match numerator_text(&num_part) {
        Ok(x) => x,
        Err(e) => {
            return Err(e);
        },
    };
    let den = match denominator_text(t) {
        Ok(d) => d,
        Err(e) => {
            return Err(e);
        },
    };
    let num_fits = -4611686018427387904i64 <= num && num <= 4611686018427387903i64;
    let den_fits = -4611686018427387904i64 <= den && den <= 4611686018427387903i64;
    if pi && (!num_fits || !den_fits) {
        return Err(ParseAngleError::Overflow);
    }
    if pi {
        Ok(AngleText::Exact(Angle::from_turn_ratio(num, 2 * den)))
    } else {
        Ok(AngleText::Ratio { numerator: num, denominator: den })
    }
}

/// Reads the normalized text of an angle in radians (see `radians_text_form`): `pi`,
/// `-pi`, decimal numbers of radians or of π radians, and ratios `n/d`, `nπ/d`, `π/d`
/// and `-π/d`.
pub fn parse_radians_chars<T: TurnWord>(t: &Vec<char>) -> (r: Result<AngleText<T>, ParseAngleError>)
    ensures
        parse_form(r) == radians_text_form::<T>(t@),
{
    let n = t.len();
    let is_pi = (n == 2 && t[0] == 'p' && t[1] == 'i') || (n == 1 && t[0] == 'π');
    let is_minus_pi = (n == 3 && t[0] == '-' && t[1] == 'p' && t[2] == 'i') || (n == 2 && t[0]
        == '-' && t[1] == 'π');
    proof {
        if n == 2 && t@[0] == 'p' && t@[1] == 'i' {
            assert(t@ =~= seq!['p', 'i']);
        }
        if n == 1 && t@[0] == 'π' {
            assert(t@ =~= seq!['π']);
        }
        if n == 3 && t@[0] == '-' && t@[1] == 'p' && t@[2] == 'i' {
            assert(t@ =~= seq!['-', 'p', 'i']);
        }
        if n == 2 && t@[0] == '-' && t@[1] == 'π' {
            assert(t@ =~= seq!['-', 'π']);
        }
        if t@ == seq!['p', 'i'] || t@ == seq!['π'] {
            assert(is_pi);
        }
        if t@ == seq!['-', 'p', 'i'] || t@ == seq!['-', 'π'] {
            assert(is_minus_pi);
        }
    }
    if is_pi {
        Ok(AngleText::Exact(Angle::from_turn_ratio(1, 2)))
    } else if is_minus_pi {
        Ok(AngleText::Exact(Angle::from_turn_ratio(-1, 2)))
    } else if find_char_index(t, '.') < n {
        decimal_text(t)
    } else {
        fraction_text(t)
    }
}

impl<T: TurnWord> Angle<T> {
    /// Reads an angle written in radians.
    ///
    /// Surrounding white space, spaces and `*` are ignored, and case does not matter.
    /// Multiples of π (`pi`, `π`, `3pi/2`, `-π/2`, `2pi`) are read exactly and wrap to
    /// `[0, 2π)`; other numbers (`1.5`, `0.5pi`, `3/2`) are handed on for conversion from
    /// radians.
    pub fn from_str_radians(s: &str) -> (r: Result<AngleText<T>, ParseAngleError>)
        ensures
            parse_form(r) == radians_text_form::<T>(normalized_angle_text(s@)),
            is_ascii_text(s@) ==> parse_form(r) == radians_text_form::<T>(
                without(trim(s@), ' ', '*').map_values(|c: char| ascii_lower(c)),
            ),
    {
        let v = chars_of(s);
        let trimmed = trim_chars(&v);
        let compact = remove_chars(&trimmed, ' ', '*');
        let text = string_from_chars(&compact);
        proof {
            if is_ascii_text(s@) {
                lemma_ascii_kept(s@, ' ', '*');
                lemma_ascii_kept(trim(s@), ' ', '*');
            }
        }
        let lower = to_lowercase(text.as_str());
        let t = chars_of(lower.as_str());
        parse_radians_chars(&t)
    }
}

impl<T: TurnWord> core::str::FromStr for AngleText<T> {
    type Err = ParseAngleError;

    /// Reads an angle written in radians (see `Angle::from_str_radians`).
    fn from_str(s: &str) -> (r: Result<Self, ParseAngleError>)
        ensures
            parse_form(r) == radians_text_form::<T>(normalized_angle_text(s@)),
            is_ascii_text(s@) ==> parse_form(r) == radians_text_form::<T>(
                without(trim(s@), ' ', '*').map_values(|c: char| ascii_lower(c)),
            ),
    {
        Angle::from_str_radians(s)
    }
}

} // verus!
