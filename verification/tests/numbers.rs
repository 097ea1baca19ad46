use props_parser::types::{Number, PrimitiveType};

const FAILED: &str = "Failed to parse the string into a valid number type.";

#[test]
fn integers_take_the_narrowest_unsigned_width_first() {
    assert_eq!(Number::parse_number("0", false), Ok(Number::U8(0)));
    assert_eq!(Number::parse_number("255", false), Ok(Number::U8(255)));
    assert_eq!(Number::parse_number("256", false), Ok(Number::U16(256)));
    assert_eq!(Number::parse_number("65535", false), Ok(Number::U16(65535)));
    assert_eq!(Number::parse_number("65536", false), Ok(Number::U32(65536)));
    assert_eq!(Number::parse_number("4294967295", false), Ok(Number::U32(4294967295)));
    assert_eq!(Number::parse_number("4294967296", false), Ok(Number::U64(4294967296)));
    assert_eq!(
        Number::parse_number("18446744073709551615", false),
        Ok(Number::U64(18446744073709551615))
    );
}

#[test]
fn negative_integers_take_the_narrowest_signed_width() {
    assert_eq!(Number::parse_number("-0", false), Ok(Number::I8(0)));
    assert_eq!(Number::parse_number("-1", false), Ok(Number::I8(-1)));
    assert_eq!(Number::parse_number("-128", false), Ok(Number::I8(-128)));
    assert_eq!(Number::parse_number("-129", false), Ok(Number::I16(-129)));
    assert_eq!(Number::parse_number("-32768", false), Ok(Number::I16(-32768)));
    assert_eq!(Number::parse_number("-32769", false), Ok(Number::I32(-32769)));
    assert_eq!(Number::parse_number("-2147483648", false), Ok(Number::I32(-2147483648)));
    assert_eq!(Number::parse_number("-2147483649", false), Ok(Number::I64(-2147483649)));
    assert_eq!(
        Number::parse_number("-9223372036854775808", false),
        Ok(Number::I64(i64::MIN))
    );
}

#[test]
fn integers_out_of_every_width_fail() {
    assert_eq!(Number::parse_number("18446744073709551616", false), Err(FAILED));
    assert_eq!(Number::parse_number("-9223372036854775809", false), Err(FAILED));
    assert_eq!(
        Number::parse_number("100000000000000000000000000000000000000", false),
        Err(FAILED)
    );
}

#[test]
fn integers_may_carry_a_plus_and_leading_zeros() {
    assert_eq!(Number::parse_number("+7", false), Ok(Number::U8(7)));
    assert_eq!(Number::parse_number("007", false), Ok(Number::U8(7)));
    assert_eq!(
        Number::parse_number("0000000000000000000000000000300", false),
        Ok(Number::U16(300))
    );
}

#[test]
fn texts_that_are_no_integers_fail() {
    for text in ["", "+", "-", "1.5", "1a", " 1", "1 ", "--1", "+-1", "0x10", "1_000", "\u{661}"] {
        assert_eq!(Number::parse_number(text, false), Err(FAILED), "{:?}", text);
    }
}

#[test]
fn decimal_texts_are_kept_as_floats() {
    for text in [
        "1.5", "1.", ".5", "0.0", "10", "+1.5", "-1.5", "1e5", "1E5", "1e+5", "1.5e-3", "1.e2",
        "inf", "+inf", "-Infinity", "NaN", "nan", "INF",
    ] {
        assert_eq!(
            Number::parse_number(text, true),
            Ok(Number::F32(text.to_string())),
            "{:?}",
            text
        );
    }
}

#[test]
fn decimal_texts_agree_with_the_float_parser() {
    for text in [
        "", ".", "+", "-", "1.2.3", "1..2", "e5", ".e5", "1e", "1e+", "1e5.0", "1.5f", " 1.5",
        "1.5 ", "in", "infinit", "nanx", "++1.0", "0x1p3", "1_0.0", "1.5", "2.", ".25", "7",
        "1e10", "-inf", "infinityy", "na", "1e-", "+.e1", "-.5", "1E+09",
    ] {
        let expected = text.parse::<f32>().is_ok();
        assert_eq!(Number::parse_number(text, true).is_ok(), expected, "{:?}", text);
    }
}

#[test]
fn number_lengths() {
    assert_eq!(Number::U8(0).len(), 1);
    assert_eq!(Number::U8(9).len(), 1);
    assert_eq!(Number::U8(10).len(), 2);
    assert_eq!(Number::U8(255).len(), 3);
    assert_eq!(Number::U16(65535).len(), 5);
    assert_eq!(Number::U32(4294967295).len(), 10);
    assert_eq!(Number::U64(u64::MAX).len(), 20);
    assert_eq!(Number::I8(-128).len(), 4);
    assert_eq!(Number::I8(7).len(), 1);
    assert_eq!(Number::I16(-1).len(), 2);
    assert_eq!(Number::I32(i32::MIN).len(), 11);
    assert_eq!(Number::I64(i64::MIN).len(), 20);
    assert_eq!(Number::I64(i64::MAX).len(), 19);
    assert_eq!(Number::F32("1.50".to_string()).len(), 4);
    assert_eq!(Number::F64("0.125".to_string()).len(), 5);
}

#[test]
fn integer_lengths_agree_with_the_written_value() {
    for v in [0u64, 1, 9, 10, 99, 100, 12345, 99999, 100000, u64::MAX] {
        assert_eq!(Number::U64(v).len(), v.to_string().len());
    }
    for v in [0i64, -1, -9, -10, -12345, 12345, i64::MIN, i64::MAX] {
        assert_eq!(Number::I64(v).len(), v.to_string().len());
    }
}

#[test]
fn literals_default_to_a_wider_signed_type() {
    assert_eq!(Number::U8(1).prim_type(), PrimitiveType::I16);
    assert_eq!(Number::U16(1).prim_type(), PrimitiveType::I32);
    assert_eq!(Number::U32(1).prim_type(), PrimitiveType::I64);
    assert_eq!(Number::U64(1).prim_type(), PrimitiveType::U64);
    assert_eq!(Number::I8(1).prim_type(), PrimitiveType::I32);
    assert_eq!(Number::I16(1).prim_type(), PrimitiveType::I32);
    assert_eq!(Number::I32(1).prim_type(), PrimitiveType::I32);
    assert_eq!(Number::I64(1).prim_type(), PrimitiveType::I64);
    assert_eq!(Number::F32("1.0".to_string()).prim_type(), PrimitiveType::F32);
    assert_eq!(Number::F64("1.0".to_string()).prim_type(), PrimitiveType::F64);
}

#[test]
fn number_from_a_text_is_a_float_where_it_holds_a_period() {
    assert_eq!("12".parse::<Number>(), Ok(Number::U8(12)));
    assert_eq!("-12".parse::<Number>(), Ok(Number::I8(-12)));
    assert_eq!("1.5".parse::<Number>(), Ok(Number::F32("1.5".to_string())));
    assert_eq!("1e5".parse::<Number>(), Err(FAILED));
    assert_eq!("1.2.3".parse::<Number>(), Err(FAILED));
    assert_eq!("".parse::<Number>(), Err(FAILED));
}

fn texts_over(alphabet: &[char], longest: usize) -> Vec<String> {
    let mut all = vec![String::new()];
    let mut last = vec![String::new()];
    for _ in 0..longest {
        let mut next = Vec::new();
        for text in &last {
            for c in alphabet {
                let mut longer = text.clone();
                longer.push(*c);
                next.push(longer);
            }
        }
        all.extend(next.iter().cloned());
        last = next;
    }
    all
}

fn narrowest(text: &str) -> Option<Number> {
    if let Ok(v) = text.parse::<u8>() {
        Some(Number::U8(v))
    } else if let Ok(v) = text.parse::<u16>() {
        Some(Number::U16(v))
    } else if let Ok(v) = text.parse::<u32>() {
        Some(Number::U32(v))
    } else if let Ok(v) = text.parse::<u64>() {
        Some(Number::U64(v))
    } else if let Ok(v) = text.parse::<i8>() {
        Some(Number::I8(v))
    } else if let Ok(v) = text.parse::<i16>() {
        Some(Number::I16(v))
    } else if let Ok(v) = text.parse::<i32>() {
        Some(Number::I32(v))
    } else if let Ok(v) = text.parse::<i64>() {
        Some(Number::I64(v))
    } else {
        None
    }
}

#[test]
fn short_decimal_texts_agree_with_the_float_parser() {
    for text in texts_over(&['1', '0', '.', 'e', 'E', '+', '-', 'i', 'n', 'f', 'a', 'N', ' '], 4) {
        let expected = text.parse::<f32>().is_ok();
        assert_eq!(Number::parse_number(&text, true).is_ok(), expected, "{:?}", text);
    }
    for tail in texts_over(&['i', 'n', 'f', 't', 'y', 'I', 'T', 'Y'], 5) {
        let text = format!("-inf{}", tail);
        let expected = text.parse::<f32>().is_ok();
        assert_eq!(Number::parse_number(&text, true).is_ok(), expected, "{:?}", text);
    }
}

#[test]
fn short_integer_texts_agree_with_the_integer_parsers() {
    for text in texts_over(&['0', '1', '2', '5', '9', '+', '-', ' ', 'a', '.'], 5) {
        assert_eq!(Number::parse_number(&text, false).ok(), narrowest(&text), "{:?}", text);
    }
}

#[test]
fn integers_around_every_limit_agree_with_the_integer_parsers() {
    let limits: [i128; 12] = [
        u8::MAX as i128,
        u16::MAX as i128,
        u32::MAX as i128,
        u64::MAX as i128,
        i8::MIN as i128,
        i16::MIN as i128,
        i32::MIN as i128,
        i64::MIN as i128,
        i8::MAX as i128,
        i16::MAX as i128,
        i32::MAX as i128,
        i64::MAX as i128,
    ];
    for limit in limits {
        for delta in -2i128..=2 {
            let value = limit + delta;
            for text in [value.to_string(), format!("+{}", value), format!("00{}", value)] {
                assert_eq!(
                    Number::parse_number(&text, false).ok(),
                    narrowest(&text),
                    "{:?}",
                    text
                );
            }
        }
    }
}
