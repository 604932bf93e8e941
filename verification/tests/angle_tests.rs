use pecos::angle::{Angle, Angle128, Angle32, Angle64};
use pecos::angle_parse::{AngleText, ParseAngleError};
use pecos::text::is_valid_decimal;
use std::f64::consts::{PI, TAU};

/// Radians of a decimal text, wrapped into `[0, 2π)` as a conversion from radians does.
fn decimal_radians(digits: &[char], times_pi: bool) -> f64 {
    let text: String = digits.iter().collect();
    let value: f64 = text.parse().unwrap();
    let radians = if times_pi { value * PI } else { value };
    radians.rem_euclid(TAU)
}

fn exact(a: Angle64) -> AngleText<u64> {
    AngleText::Exact(a)
}

#[test]
fn test_constructors() {
    let angle = Angle64::new(0);
    assert_eq!(angle, Angle64::zero());
}

#[test]
fn test_zero_angle() {
    let zero = Angle64::zero();
    assert!(zero.is_zero());
    assert_eq!(zero.fraction(), 0);
}

#[test]
fn test_constant_relationships() {
    assert_eq!(
        Angle64::half_turn().fraction(),
        Angle64::quarter_turn().fraction() * 2
    );
    assert_eq!(
        Angle64::three_quarters_turn().fraction(),
        Angle64::quarter_turn().fraction() * 3
    );
    assert_eq!(Angle64::full_turn().fraction(), 0);
}

#[test]
fn test_addition() {
    let a = Angle64::quarter_turn();
    let b = Angle64::quarter_turn();
    let result = a + b;
    assert_eq!(result.fraction(), Angle64::half_turn().fraction());
}

#[test]
fn test_angle_arithmetic() {
    let quarter = Angle64::quarter_turn();
    let half = Angle64::half_turn();
    let three_quarters = Angle64::three_quarters_turn();
    let full = Angle64::full_turn();

    assert_eq!((quarter + quarter).fraction(), half.fraction());
    assert_eq!((quarter + half).fraction(), three_quarters.fraction());
    assert_eq!((quarter + three_quarters).fraction(), full.fraction());
}

#[test]
fn test_u128_arithmetic() {
    let quarter = Angle128::quarter_turn();
    let half = Angle128::half_turn();
    assert_eq!((quarter + quarter).fraction(), half.fraction());
    let doubled = quarter * 2u128;
    assert_eq!(doubled.fraction(), half.fraction());
    let halved = half / 2u128;
    assert_eq!(halved.fraction(), quarter.fraction());
}

#[test]
fn test_division_edge_cases() {
    let angle = Angle64::half_turn();
    let divided = angle / 1u64;
    assert_eq!(divided, angle);
    let divided = angle / 4u64;
    assert_eq!(divided, Angle64::quarter_turn() / 2u64);
    let zero = Angle64::zero() / 1000u64;
    assert!(zero.is_zero());
}

#[test]
fn test_scalar_operations() {
    let quarter = Angle64::quarter_turn();
    let half = Angle64::half_turn();
    let doubled = quarter * 2u64;
    assert_eq!(doubled.fraction(), half.fraction());
    let halved = half / 2u64;
    assert_eq!(halved.fraction(), quarter.fraction());
}

#[test]
fn test_large_scalar_division() {
    let angle = Angle64::quarter_turn();
    let small = angle / 1000u64;
    let tiny = angle / (u64::MAX / 2);
    assert!(small.fraction() > tiny.fraction());
    let microscopic = angle / u64::MAX;
    assert_eq!(microscopic.fraction(), 0);
}

#[test]
fn test_scalar_multiplication_overflow() {
    let angle = Angle64::quarter_turn();
    let result = angle * u64::MAX;
    assert_ne!(result.fraction(), angle.fraction());
    let result = Angle64::quarter_turn() * 4u64;
    assert!(result.is_zero());
}

#[test]
fn test_addition_subtraction_reversibility() {
    let quarter = Angle64::quarter_turn();
    let half = Angle64::half_turn();
    let test_angle = quarter + half;
    assert_eq!((test_angle - half).fraction(), quarter.fraction());
}

#[test]
fn test_accumulation() {
    let quarter = Angle64::quarter_turn();
    let mut angle = Angle64::zero();
    for _ in 0..4 {
        angle = angle + quarter;
    }
    assert_eq!(angle.fraction(), Angle64::zero().fraction());
    let step = Angle64::quarter_turn() / 16u64;
    let accumulated = (0..16).fold(Angle64::zero(), |acc, _| acc + step);
    assert_eq!(accumulated.fraction(), Angle64::quarter_turn().fraction());
}

#[test]
fn test_precision_conversion() {
    let small_angle = Angle128::new(1);
    let converted: Angle64 = small_angle.into();
    assert!(converted.is_zero());
    let significant_angle = Angle128::quarter_turn();
    let converted: Angle64 = significant_angle.into();
    let back: Angle128 = converted.into();
    assert_eq!(back.fraction(), significant_angle.fraction());
}

#[test]
fn test_very_small_angles() {
    let small32 = Angle32::new(1);
    let small64 = Angle64::new(1);
    let small128 = Angle128::new(1);
    assert!(!small32.is_zero());
    assert!(!small64.is_zero());
    assert!(!small128.is_zero());
    assert!(small32.fraction() > 0);
    assert!(small64.fraction() > 0);
    assert!(small128.fraction() > 0);
}

#[test]
fn test_near_full_turn() {
    let almost_full64 = Angle64::new(u64::MAX);
    assert!(!almost_full64.is_zero());
    assert!((almost_full64 + Angle64::new(1)).is_zero());
}

#[test]
fn test_bit_width_conversions() {
    let angle32 = Angle32::quarter_turn();
    let angle64: Angle64 = angle32.into();
    let back32: Angle32 = angle64.into();
    assert_eq!(angle32, back32);
    let angle128: Angle128 = angle64.into();
    let back64: Angle64 = angle128.into();
    assert_eq!(angle64, back64);
}

#[test]
fn test_wrapping_behavior() {
    let quarter = Angle64::quarter_turn();
    let full = Angle64::full_turn();
    let wrapped = full + quarter;
    assert_eq!(wrapped.fraction(), quarter.fraction());
    let mut angle = Angle64::zero();
    for _ in 0..8 {
        angle = angle + quarter;
    }
    assert_eq!(angle.fraction(), Angle64::zero().fraction());
}

#[test]
fn test_ordering() {
    let zero = Angle64::zero();
    let quarter = Angle64::quarter_turn();
    let half = Angle64::half_turn();
    assert!(zero < quarter);
    assert!(quarter < half);
    assert!(zero < half);
    let angles = vec![half, zero, quarter];
    let mut sorted = angles.clone();
    sorted.sort();
    assert_eq!(sorted, vec![zero, quarter, half]);
}

#[test]
fn test_fraction_ordering() {
    let zero = Angle64::zero();
    let quarter = Angle64::quarter_turn();
    let half = Angle64::half_turn();
    let three_quarters = Angle64::three_quarters_turn();
    let full = Angle64::full_turn();
    assert!(quarter.fraction() < half.fraction());
    assert!(half.fraction() < three_quarters.fraction());
    assert!(three_quarters.fraction() > quarter.fraction());
    assert_eq!(zero.fraction(), 0);
    assert_eq!(full.fraction(), 0);
    assert!(zero.fraction() < quarter.fraction());
    assert!(quarter.fraction() < half.fraction());
    assert!(half.fraction() < three_quarters.fraction());
}

#[test]
fn test_effective_modulus_u8() {
    let max_value = u8::MAX;
    let effective_modulus = max_value.wrapping_add(1);
    assert_eq!(
        effective_modulus, 0,
        "Effective modulus should wrap to 0 for u8"
    );
}

#[test]
fn test_effective_modulus_u64() {
    let max_value = u64::MAX;
    let effective_modulus = max_value.wrapping_add(1);
    assert_eq!(
        effective_modulus, 0,
        "Effective modulus should wrap to 0 for u64"
    );
}

#[test]
fn test_angle_arithmetic_with_u16() {
    let a = Angle::new(100_u16);
    let b = Angle::new(200_u16);
    let result = a + b;
    assert!(result.fraction() < u16::MAX, "Result must be within bounds");
}

#[test]
fn test_normalize_keeps_angle() {
    let a = Angle64::new(12345);
    assert_eq!(a.normalize(), a);
}

#[test]
fn test_turn_constants_exact_values() {
    assert_eq!(Angle64::quarter_turn().fraction(), 1u64 << 62);
    assert_eq!(Angle64::half_turn().fraction(), 1u64 << 63);
    assert_eq!(Angle64::three_quarters_turn().fraction(), 3u64 << 62);
    assert_eq!(Angle32::half_turn().fraction(), 1u32 << 31);
    assert_eq!(Angle128::quarter_turn().fraction(), 1u128 << 126);
}

#[test]
fn test_from_turn_ratio_values() {
    assert_eq!(Angle64::from_turn_ratio(1, 4), Angle64::quarter_turn());
    assert_eq!(Angle64::from_turn_ratio(-1, 4), Angle64::three_quarters_turn());
    assert_eq!(Angle64::from_turn_ratio(5, 4), Angle64::quarter_turn());
    assert_eq!(Angle64::from_turn_ratio(1, -4), Angle64::three_quarters_turn());
    assert_eq!(Angle64::from_turn_ratio(1, 3).fraction(), u64::MAX / 3);
    assert_eq!(Angle32::from_turn_ratio(i64::MAX, i64::MAX), Angle32::zero());
}

#[test]
fn test_narrowing_keeps_high_bits() {
    let a = Angle64::new(0x1234_5678_9abc_def0);
    let n: Angle32 = a.into();
    assert_eq!(n.fraction(), 0x1234_5678);
}

// Parsing

#[test]
fn test_parse_basic_pi() {
    assert_eq!(Angle64::from_str_radians("pi").unwrap(), exact(Angle64::half_turn()));
    assert_eq!(Angle64::from_str_radians("π").unwrap(), exact(Angle64::half_turn()));
    assert_eq!(Angle64::from_str_radians("PI").unwrap(), exact(Angle64::half_turn()));
}

#[test]
fn test_parse_fractions() {
    assert_eq!(Angle64::from_str_radians("pi/2").unwrap(), exact(Angle64::quarter_turn()));
    assert_eq!(Angle64::from_str_radians("π/2").unwrap(), exact(Angle64::quarter_turn()));
    assert_eq!(Angle64::from_str_radians("PI/2").unwrap(), exact(Angle64::quarter_turn()));
}

#[test]
fn test_parse_multiples() {
    assert_eq!(Angle64::from_str_radians("2pi").unwrap(), exact(Angle64::full_turn()));
    assert_eq!(Angle64::from_str_radians("2π").unwrap(), exact(Angle64::full_turn()));
    assert_eq!(Angle64::from_str_radians("2PI").unwrap(), exact(Angle64::full_turn()));
}

#[test]
fn test_parse_complex() {
    let three_quarters = exact(Angle64::three_quarters_turn());
    assert_eq!(Angle64::from_str_radians("3pi/2").unwrap(), three_quarters);
    assert_eq!(Angle64::from_str_radians("3π/2").unwrap(), three_quarters);
    assert_eq!(Angle64::from_str_radians("3*pi/2").unwrap(), three_quarters);
}

#[test]
fn test_parse_with_spaces() {
    let three_quarters = exact(Angle64::three_quarters_turn());
    assert_eq!(Angle64::from_str_radians("3 pi / 2").unwrap(), three_quarters);
    assert_eq!(Angle64::from_str_radians("3 * pi / 2").unwrap(), three_quarters);
    assert_eq!(Angle64::from_str_radians("  pi  ").unwrap(), exact(Angle64::half_turn()));
}

#[test]
fn test_parse_non_pi() {
    let angle = Angle64::from_str_radians("1.5").unwrap();
    match angle {
        AngleText::Decimal { digits, times_pi } => {
            assert!(!times_pi);
            assert!((decimal_radians(&digits, times_pi) - 1.5).abs() < 1e-10);
        }
        other => panic!("unexpected reading {other:?}"),
    }
}

#[test]
fn test_parse_pi_decimal() {
    let test_cases = [
        ("1.5 * pi", 1.5),
        ("0.5pi", 0.5),
        ("0.25 * pi", 0.25),
        ("0.3 pi", 0.3),
        ("-0.5pi", 1.5),
        ("0.75 * pi", 0.75),
    ];
    for (input, multiplier) in test_cases {
        match Angle64::from_str_radians(input).unwrap() {
            AngleText::Decimal { digits, times_pi } => {
                assert!(times_pi, "Failed for input: {input}");
                let actual = decimal_radians(&digits, times_pi);
                assert!((actual - multiplier * PI).abs() < 1e-10, "Failed for input: {input}");
            }
            other => panic!("unexpected reading {other:?} for {input}"),
        }
    }
}

#[test]
fn test_parse_pi_symbol_decimal() {
    let test_cases = [
        ("1.5 * π", 1.5),
        ("0.5π", 0.5),
        ("0.25 * π", 0.25),
        ("0.3 π", 0.3),
        ("-0.5π", 1.5),
        ("0.75 * π", 0.75),
    ];
    for (input, multiplier) in test_cases {
        match Angle64::from_str_radians(input).unwrap() {
            AngleText::Decimal { digits, times_pi } => {
                assert!(times_pi, "Failed for input: {input}");
                let actual = decimal_radians(&digits, times_pi);
                assert!((actual - multiplier * PI).abs() < 1e-10, "Failed for input: {input}");
            }
            other => panic!("unexpected reading {other:?} for {input}"),
        }
    }
}

#[test]
fn test_parse_decimal_errors() {
    assert_eq!(
        Angle64::from_str_radians("1.5.2pi"),
        Err(ParseAngleError::InvalidNumerator),
        "multiple decimals should be invalid"
    );
    assert_eq!(
        Angle64::from_str_radians("pi.2"),
        Err(ParseAngleError::InvalidNumerator),
        "decimal after pi should be invalid"
    );
    assert_eq!(
        Angle64::from_str_radians("1.2pi/2"),
        Err(ParseAngleError::InvalidNumerator),
        "decimal with fraction should be invalid"
    );
}

#[test]
fn test_parse_errors() {
    assert_eq!(
        Angle64::from_str_radians("invalid"),
        Err(ParseAngleError::InvalidNumerator)
    );
    assert_eq!(
        Angle64::from_str_radians("pi/0"),
        Err(ParseAngleError::DivisionByZero)
    );
    assert_eq!(
        Angle64::from_str_radians("pi/invalid"),
        Err(ParseAngleError::InvalidDenominator)
    );
}

#[test]
fn test_parse_fromstr_trait() {
    let angle: AngleText<u64> = "pi/2".parse().unwrap();
    assert_eq!(angle, exact(Angle64::quarter_turn()));
}

#[test]
fn test_parse_edge_cases() {
    assert!(
        Angle64::from_str_radians(&format!("{}pi", i64::MAX)).is_err(),
        "failed to deal with large numbers"
    );
    let neg_quarter = Angle64::from_str_radians("-pi/2").unwrap();
    assert_eq!(
        neg_quarter,
        exact(Angle64::three_quarters_turn()),
        "failed to handle negative numbers"
    );
    match Angle64::from_str_radians("0").unwrap() {
        AngleText::Ratio { numerator, denominator } => {
            assert_eq!((numerator, denominator), (0, 1), "failed to handle zero (0)");
        }
        other => panic!("unexpected reading {other:?}"),
    }
    assert_eq!(
        Angle64::from_str_radians("0pi").unwrap(),
        exact(Angle64::zero()),
        "failed to handle zero (0pi)"
    );
    assert_eq!(
        Angle64::from_str_radians("-pi").unwrap(),
        exact(Angle64::half_turn()),
        "failed to handle -pi"
    );
}

#[test]
fn test_parse_overflow_and_ratio_errors() {
    assert_eq!(
        Angle64::from_str_radians(&format!("{}pi", i64::MAX)),
        Err(ParseAngleError::Overflow)
    );
    assert_eq!(
        Angle64::from_str_radians("99999999999999999999"),
        Err(ParseAngleError::Overflow)
    );
    assert_eq!(Angle64::from_str_radians("/2"), Err(ParseAngleError::InvalidNumerator));
    assert_eq!(Angle64::from_str_radians("3/x"), Err(ParseAngleError::InvalidDenominator));
    assert_eq!(Angle64::from_str_radians("3/0"), Err(ParseAngleError::DivisionByZero));
    assert_eq!(
        Angle64::from_str_radians("3/2").unwrap(),
        AngleText::Ratio { numerator: 3, denominator: 2 }
    );
    assert_eq!(Angle64::from_str_radians("ppii"), Err(ParseAngleError::InvalidNumerator));
    assert_eq!(
        Angle64::from_str_radians("-π/4").unwrap(),
        exact(Angle64::from_turn_ratio(7, 8))
    );
}

#[test]
fn test_parse_error_messages() {
    assert_eq!(ParseAngleError::InvalidFormat.message(), "invalid angle format");
    assert_eq!(ParseAngleError::InvalidNumerator.message(), "invalid numerator");
    assert_eq!(ParseAngleError::InvalidDenominator.message(), "invalid denominator");
    assert_eq!(ParseAngleError::DivisionByZero.message(), "division by zero");
    assert_eq!(ParseAngleError::Overflow.message(), "angle too large to represent");
}

#[test]
fn test_is_valid_decimal_cases() {
    assert!(is_valid_decimal("1.5"));
    assert!(is_valid_decimal("-0.25"));
    assert!(is_valid_decimal("7"));
    assert!(!is_valid_decimal(".5"));
    assert!(!is_valid_decimal("1.2.3"));
    assert!(!is_valid_decimal("1-2"));
    assert!(!is_valid_decimal("-"));
    assert!(!is_valid_decimal(""));
    assert!(!is_valid_decimal("1e5"));
}

#[test]
fn test_whole_turns_wrap() {
    assert_eq!(Angle64::from_str_radians("5pi/2").unwrap(), exact(Angle64::quarter_turn()));
    assert_eq!(Angle64::from_str_radians("-3pi/2").unwrap(), exact(Angle64::quarter_turn()));
}

#[test]
fn test_parse_empty_text_is_not_overflow() {
    for s in ["", "  ", "*", "-", " - ", "**"] {
        let r = Angle64::from_str_radians(s);
        assert_eq!(r, Err(ParseAngleError::InvalidNumerator), "input {s:?}");
    }
    // Overflow stays for digit strings too large for an i64.
    assert_eq!(
        Angle64::from_str_radians("99999999999999999999"),
        Err(ParseAngleError::Overflow)
    );
    assert_eq!(
        Angle64::from_str_radians("-99999999999999999999pi"),
        Err(ParseAngleError::Overflow)
    );
}
