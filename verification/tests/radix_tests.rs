use radix_ecmascript::digits::{DigitBuilder, FracStep};
use radix_ecmascript::f64_util;
use radix_ecmascript::{to_radix_str_special, Base, InvalidBaseError, MAX_BASE, MIN_BASE};

/// Drives the verified conversion: the native floating-point arithmetic
/// happens here, and every digit and comparison outcome is handed to the
/// verified builder, which makes all rounding, carry and assembly decisions.
fn to_radix_str(x: f64, base: Base) -> Result<String, InvalidBaseError> {
    if let Some(literal) = to_radix_str_special(x.to_bits(), base)? {
        return Ok(literal);
    }

    let value = x.abs();
    let mut integer = value.floor();
    let mut fraction = value - integer;

    // Half the gap to the next representable value, floored by the smallest
    // positive value: fractional digits stop at this precision unit.
    let next_value = f64::from_bits(f64_util::next_float(value.to_bits()));
    let tiny = f64::from_bits(f64_util::next_float(0.0f64.to_bits()));
    let mut delta = 0.5 * (next_value - value);
    delta = delta.max(tiny);

    let base_f = base as f64;
    let mut builder = DigitBuilder::new(base, x.is_sign_negative());

    if fraction >= delta {
        loop {
            fraction *= base_f;
            delta *= base_f;

            let digit = fraction as usize;
            assert!(digit < base as usize);
            fraction -= digit as f64;

            let gt_half = fraction > 0.5;
            let eq_half = fraction == 0.5;
            let sum_gt_one = fraction + delta > 1.0;
            let below_delta = fraction < delta;

            match builder.frac_step(digit as u8, gt_half, eq_half, sum_gt_one, below_delta) {
                FracStep::Continue => {}
                FracStep::Done => break,
                FracStep::CarryInteger => {
                    integer += 1.0;
                    break;
                }
            }
        }
    }

    // Fill integer positions beyond the value's precision with zeros.
    while f64_util::exponent((integer / base_f).to_bits()) > 0 {
        integer /= base_f;
        builder.push_int_digit(0);
    }

    loop {
        let remainder = integer % base_f;
        let d = remainder as usize;
        assert!(d < base as usize);
        builder.push_int_digit(d as u8);
        integer = (integer - remainder) / base_f;

        if integer <= 0.0 {
            break;
        }
    }

    Ok(builder.finish())
}

#[test]
fn test_to_radix_str() {
    let x = 0.05217266072382676;

    const EXPECTED: [&str; 35] = [
        "0.00001101010110110010111111111111100011011101110000011",
        "0.00110200022020012220120101220020111",
        "0.003111230233333320313130012",
        "0.0112300443304443032401333",
        "0.015134100114141415452",
        "0.023616030022055516622",
        "0.032554577770673406",
        "0.042026618651180643",
        "0.05217266072382676",
        "0.06349506198377117",
        "0.0761a289186a5058",
        "0.08a814611c1a0636",
        "0.0a3239cda0bc978",
        "0.0bb139330b51876",
        "0.0d5b2fff8ddc18",
        "0.0f158c3647753f",
        "0.0gg4fe405e39cb",
        "0.0ifg3cei7ia9h",
        "0.10h7ca5eabje8",
        "0.1203c8f80ka74",
        "0.135bgf5hk3ll2",
        "0.14di134k07bii",
        "0.1615f6hcdi284",
        "0.17f4nfon3e1ie",
        "0.196pgpp81pf5f",
        "0.1b0oihjj5ijc",
        "0.1cp86j9br2n3",
        "0.1epcl695l16b",
        "0.1gsjpjk0r2dp",
        "0.1j48gudjoqjq",
        "0.1ldivvsdrgc",
        "0.1nqulj60i8vr",
        "0.1qak6wn4rq5o",
        "0.1svvkxr2efv",
        "0.1vm61aaabtc",
    ];

    for base in MIN_BASE..=MAX_BASE {
        assert_eq!(to_radix_str(x, base).unwrap(), EXPECTED[base as usize - 2]);
    }
}

#[test]
fn test_to_radix_str_ranges() {
    // Valid ranges
    for base in MIN_BASE..=MAX_BASE {
        assert!(to_radix_str(0.0, base).is_ok());
    }

    // Invalid ranges
    assert!(to_radix_str(0.0, MIN_BASE - 1).is_err());
    assert!(to_radix_str(0.0, MAX_BASE + 1).is_err());
}

#[test]
fn test_special_value_literals() {
    for base in MIN_BASE..=MAX_BASE {
        assert_eq!(to_radix_str(f64::NAN, base).unwrap(), "NaN");
        assert_eq!(to_radix_str(0.0, base).unwrap(), "0");
        assert_eq!(to_radix_str(-0.0, base).unwrap(), "0");
        assert_eq!(to_radix_str(f64::INFINITY, base).unwrap(), "Infinity");
        assert_eq!(to_radix_str(f64::NEG_INFINITY, base).unwrap(), "-Infinity");
    }
}

#[test]
fn test_boundary_bases() {
    let err = to_radix_str(0.123, 1).unwrap_err();
    assert_eq!(err, InvalidBaseError(1));
    let err = to_radix_str(0.123, 37).unwrap_err();
    assert_eq!(err, InvalidBaseError(37));
    assert!(to_radix_str(0.123, 2).is_ok());
    assert!(to_radix_str(0.123, 36).is_ok());
}

#[test]
fn test_hex_scenario() {
    assert_eq!(to_radix_str(0.123, 16).unwrap(), "0.1f7ced916872b");
}

#[test]
fn test_sign_propagation_scenario() {
    let positive = to_radix_str(0.123, 16).unwrap();
    let negative = to_radix_str(-0.123, 16).unwrap();
    assert_eq!(negative, format!("-{}", positive));

    let positive = to_radix_str(255.5, 36).unwrap();
    let negative = to_radix_str(-255.5, 36).unwrap();
    assert_eq!(negative, format!("-{}", positive));
}

#[test]
fn test_round_trip_hex() {
    // The hexadecimal digits of 0.123 describe an exact dyadic rational:
    // reading them back must recover the very same double.
    let s = to_radix_str(0.123, 16).unwrap();
    let digits = s.strip_prefix("0.").unwrap();
    let n = u64::from_str_radix(digits, 16).unwrap();
    let recovered = (n as f64) * (2.0f64).powi(-4 * digits.len() as i32);
    assert_eq!(recovered, 0.123);
    assert_eq!(recovered.to_bits(), (0.123f64).to_bits());
}

#[test]
fn test_round_trip_binary() {
    let x = 0.05217266072382676;
    let s = to_radix_str(x, 2).unwrap();
    let digits = s.strip_prefix("0.").unwrap();
    let n = u64::from_str_radix(digits, 2).unwrap();
    let recovered = (n as f64) * (2.0f64).powi(-(digits.len() as i32));
    assert_eq!(recovered.to_bits(), x.to_bits());
}

#[test]
fn test_integer_values() {
    assert_eq!(to_radix_str(255.0, 16).unwrap(), "ff");
    assert_eq!(to_radix_str(255.5, 16).unwrap(), "ff.8");
    assert_eq!(to_radix_str(-1.0, 2).unwrap(), "-1");
    assert_eq!(to_radix_str(35.0, 36).unwrap(), "z");
    assert_eq!(to_radix_str(36.0, 36).unwrap(), "10");
}

#[test]
fn test_large_integer_padding() {
    // 2^70 in binary: a one followed by seventy zeros; the digits past the
    // value's precision are placeholder zeros.
    let x = (2.0f64).powi(70);
    let s = to_radix_str(x, 2).unwrap();
    let mut expected = String::from("1");
    for _ in 0..70 {
        expected.push('0');
    }
    assert_eq!(s, expected);
}

#[test]
fn test_fraction_carry_rounds_up() {
    // A remainder just above one half with nothing left to emit rounds the
    // last digit up rather than appending further digits.
    let s = to_radix_str(0.5 + (2.0f64).powi(-53), 2).unwrap();
    assert!(s.starts_with("0.1"));
}

#[test]
fn test_builder_carry_walk() {
    // Fractional digits 9, 9 in base ten: a round-up walks back through
    // both nines, drops them, and carries into the integer part.
    let mut b = DigitBuilder::new(10, false);
    b.push_int_digit(1);
    assert_eq!(b.frac_step(9, false, false, true, false), FracStep::Continue);
    assert_eq!(b.frac_step(9, true, false, true, false), FracStep::CarryInteger);
    assert_eq!(b.finish(), "1");

    // A digit below base - 1 absorbs the carry instead.
    let mut b = DigitBuilder::new(10, false);
    b.push_int_digit(0);
    assert_eq!(b.frac_step(3, false, false, true, false), FracStep::Continue);
    assert_eq!(b.frac_step(9, true, false, true, false), FracStep::Done);
    assert_eq!(b.finish(), "0.4");
}

#[test]
fn test_builder_precision_stop() {
    let mut b = DigitBuilder::new(16, true);
    b.push_int_digit(10);
    assert_eq!(b.frac_step(15, false, false, false, true), FracStep::Done);
    assert_eq!(b.finish(), "-a.f");
}

#[test]
fn test_bit_utilities() {
    let one = 1.0f64.to_bits();
    assert!(!f64_util::is_denormal(one));
    assert!(f64_util::is_pos(one));
    assert_eq!(f64_util::significand(one), 1u64 << 52);
    assert_eq!(f64_util::exponent(one), -52);

    let neg = (-1.0f64).to_bits();
    assert!(!f64_util::is_pos(neg));

    let sub = 1u64; // smallest positive subnormal pattern
    assert!(f64_util::is_denormal(sub));
    assert_eq!(f64_util::significand(sub), 1);
    assert_eq!(f64_util::exponent(sub), -1074);

    // 2^53 is the first value whose unit in the last place exceeds one.
    assert_eq!(f64_util::exponent((2.0f64).powi(53).to_bits()), 1);
    assert_eq!(f64_util::exponent((2.0f64).powi(52).to_bits()), 0);
}

#[test]
fn test_next_float() {
    // Stepping the pattern of 1.0 gives the next representable double.
    let one = 1.0f64;
    let next = f64::from_bits(f64_util::next_float(one.to_bits()));
    assert!(next > one);
    assert_eq!(next, one + (2.0f64).powi(-52));

    // Positive infinity is a fixed point.
    let inf = f64::INFINITY.to_bits();
    assert_eq!(f64_util::next_float(inf), inf);

    // Negative zero crosses to positive zero.
    assert_eq!(f64_util::next_float((-0.0f64).to_bits()), 0);

    // The smallest positive value sits one step above zero.
    assert_eq!(f64_util::next_float(0.0f64.to_bits()), 1);
}

#[test]
fn test_digit_characters() {
    assert_eq!(radix_ecmascript::digits::digit_to_char(0), '0');
    assert_eq!(radix_ecmascript::digits::digit_to_char(9), '9');
    assert_eq!(radix_ecmascript::digits::digit_to_char(10), 'a');
    assert_eq!(radix_ecmascript::digits::digit_to_char(35), 'z');
    assert_eq!(radix_ecmascript::digits::digit_str(11), "b");
}

#[test]
fn test_special_dispatch() {
    assert_eq!(
        to_radix_str_special(f64::NAN.to_bits(), 10).unwrap(),
        Some(String::from("NaN"))
    );
    assert_eq!(to_radix_str_special(1.5f64.to_bits(), 10).unwrap(), None);
    assert_eq!(to_radix_str_special(1.5f64.to_bits(), 0).unwrap_err(), InvalidBaseError(0));
}

#[test]
fn test_invalid_base_error_carries_base() {
    let err = to_radix_str(1.5, 200).unwrap_err();
    assert_eq!(err.0, 200);
}
