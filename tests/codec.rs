use numbin::decimal::{parse_text, render};
use numbin::{TypeTag, Value};

fn all_tags() -> Vec<TypeTag> {
    vec![
        TypeTag::U8,
        TypeTag::U16,
        TypeTag::U32,
        TypeTag::U64,
        TypeTag::U128,
        TypeTag::I8,
        TypeTag::I16,
        TypeTag::I32,
        TypeTag::I64,
        TypeTag::I128,
        TypeTag::F32,
        TypeTag::F64,
    ]
}

#[test]
fn widths_follow_the_table() {
    let widths: Vec<usize> = all_tags().iter().map(|t| t.byte_width()).collect();
    assert_eq!(widths, vec![1, 2, 4, 8, 16, 1, 2, 4, 8, 16, 4, 8]);
}

#[test]
fn every_name_selects_its_type() {
    let names = ["u8", "u16", "u32", "u64", "u128", "i8", "i16", "i32", "i64", "i128", "f32", "f64"];
    for (name, tag) in names.iter().zip(all_tags()) {
        assert_eq!(TypeTag::from_name(name), Some(tag));
    }
}

#[test]
fn unknown_names_select_nothing() {
    for name in ["u7", "", "U8", "u8 ", "i256", "f16", "u1288"] {
        assert_eq!(TypeTag::from_name(name), None);
    }
}

#[test]
fn signedness_and_float_kinds() {
    assert!(TypeTag::I64.is_signed());
    assert!(!TypeTag::U64.is_signed());
    assert!(!TypeTag::F64.is_signed());
    assert!(TypeTag::F32.is_float());
    assert!(!TypeTag::I32.is_float());
}

#[test]
fn integers_encode_little_endian() {
    assert_eq!(Value::U8(1).encode(), vec![0x01]);
    assert_eq!(Value::U16(0x0102).encode(), vec![0x02, 0x01]);
    assert_eq!(Value::U32(0x0102_0304).encode(), vec![0x04, 0x03, 0x02, 0x01]);
    assert_eq!(
        Value::U64(0x0102_0304_0506_0708).encode(),
        vec![0x08, 0x07, 0x06, 0x05, 0x04, 0x03, 0x02, 0x01]
    );
    assert_eq!(Value::U128(1).encode(), {
        let mut b = vec![0u8; 16];
        b[0] = 1;
        b
    });
}

#[test]
fn negative_integers_encode_twos_complement() {
    assert_eq!(Value::I8(-1).encode(), vec![0xff]);
    assert_eq!(Value::I8(-128).encode(), vec![0x80]);
    assert_eq!(Value::I16(-2).encode(), vec![0xfe, 0xff]);
    assert_eq!(Value::I32(-1).encode(), vec![0xff; 4]);
    assert_eq!(Value::I64(i64::MIN).encode(), vec![0, 0, 0, 0, 0, 0, 0, 0x80]);
    assert_eq!(Value::I128(-1).encode(), vec![0xff; 16]);
    let mut min = vec![0u8; 16];
    min[15] = 0x80;
    assert_eq!(Value::I128(i128::MIN).encode(), min);
}

#[test]
fn encodings_match_native_byte_order() {
    assert_eq!(Value::I32(-123456).encode(), (-123456i32).to_le_bytes().to_vec());
    assert_eq!(Value::U64(u64::MAX - 5).encode(), (u64::MAX - 5).to_le_bytes().to_vec());
    assert_eq!(Value::I128(i128::MIN + 7).encode(), (i128::MIN + 7).to_le_bytes().to_vec());
    assert_eq!(Value::I16(i16::MAX).encode(), i16::MAX.to_le_bytes().to_vec());
}

#[test]
fn floats_encode_their_ieee_layout() {
    assert_eq!(Value::F32(1.0f32.to_bits()).encode(), vec![0x00, 0x00, 0x80, 0x3f]);
    assert_eq!(Value::F64((-2.5f64).to_bits()).encode(), (-2.5f64).to_le_bytes().to_vec());
}

#[test]
fn decoding_reads_little_endian() {
    assert_eq!(Value::decode(TypeTag::U16, &[0x02, 0x01]), Value::U16(0x0102));
    assert_eq!(Value::decode(TypeTag::I16, &[0xfe, 0xff]), Value::I16(-2));
    assert_eq!(Value::decode(TypeTag::I8, &[0x80]), Value::I8(-128));
    assert_eq!(Value::decode(TypeTag::I8, &[0x7f]), Value::I8(127));
    assert_eq!(Value::decode(TypeTag::I128, &[0xff; 16]), Value::I128(-1));
    assert_eq!(Value::decode(TypeTag::U128, &[0xff; 16]), Value::U128(u128::MAX));
    assert_eq!(Value::decode(TypeTag::F32, &[0x00, 0x00, 0x80, 0x3f]), Value::F32(1.0f32.to_bits()));
}

#[test]
fn binary_round_trip_is_exact() {
    let values = vec![
        Value::U8(0),
        Value::U8(u8::MAX),
        Value::U16(u16::MAX),
        Value::U32(u32::MAX),
        Value::U64(u64::MAX),
        Value::U128(u128::MAX),
        Value::I8(i8::MIN),
        Value::I16(i16::MIN),
        Value::I32(i32::MIN),
        Value::I64(i64::MIN),
        Value::I128(i128::MIN),
        Value::I128(i128::MAX),
        Value::I64(-1),
        Value::F32(f32::NAN.to_bits()),
        Value::F64((-0.0f64).to_bits()),
        Value::F64(f64::MAX.to_bits()),
    ];
    for v in values {
        let bytes = v.encode();
        assert_eq!(bytes.len(), v.type_tag().byte_width());
        assert_eq!(Value::decode(v.type_tag(), &bytes), v);
    }
}

#[test]
fn bytes_round_trip_is_exact() {
    let bytes: Vec<u8> = vec![0x81, 0x00, 0xff, 0x7f, 0x10, 0x20, 0x30, 0x40];
    for tag in [TypeTag::I64, TypeTag::U64, TypeTag::F64] {
        assert_eq!(Value::decode(tag, &bytes).encode(), bytes);
    }
}

#[test]
fn text_parses_with_optional_sign() {
    assert_eq!(parse_text(TypeTag::U8, "1"), Some(Value::U8(1)));
    assert_eq!(parse_text(TypeTag::U8, "+5"), Some(Value::U8(5)));
    assert_eq!(parse_text(TypeTag::U8, "007"), Some(Value::U8(7)));
    assert_eq!(parse_text(TypeTag::I8, "-0"), Some(Value::I8(0)));
    assert_eq!(parse_text(TypeTag::I8, "-128"), Some(Value::I8(-128)));
    assert_eq!(parse_text(TypeTag::I32, "-123456"), Some(Value::I32(-123456)));
    assert_eq!(parse_text(TypeTag::I64, "+42"), Some(Value::I64(42)));
}

#[test]
fn text_at_the_edges_of_each_range() {
    assert_eq!(parse_text(TypeTag::U8, "255"), Some(Value::U8(255)));
    assert_eq!(parse_text(TypeTag::U8, "256"), None);
    assert_eq!(parse_text(TypeTag::I8, "127"), Some(Value::I8(127)));
    assert_eq!(parse_text(TypeTag::I8, "128"), None);
    assert_eq!(parse_text(TypeTag::I8, "-129"), None);
    assert_eq!(
        parse_text(TypeTag::U128, "340282366920938463463374607431768211455"),
        Some(Value::U128(u128::MAX))
    );
    assert_eq!(parse_text(TypeTag::U128, "340282366920938463463374607431768211456"), None);
    assert_eq!(
        parse_text(TypeTag::I128, "-170141183460469231731687303715884105728"),
        Some(Value::I128(i128::MIN))
    );
    assert_eq!(parse_text(TypeTag::I128, "170141183460469231731687303715884105728"), None);
    assert_eq!(parse_text(TypeTag::U64, "99999999999999999999999999999999999999999999999999"), None);
}

#[test]
fn malformed_text_is_rejected() {
    for s in ["", "+", "-", "abc", " 1", "1 ", "1.0", "1e3", "--1", "+-1", "0x10", "q", "١٢"] {
        assert_eq!(parse_text(TypeTag::I32, s), None, "{s:?}");
    }
    assert_eq!(parse_text(TypeTag::U8, "-1"), None);
    assert_eq!(parse_text(TypeTag::U32, "-0"), None);
}

#[test]
fn text_parsing_agrees_with_native_parsing() {
    for s in ["0", "+0", "-0", "12", "-12", "65535", "65536", "-32768", "-32769", "+", "x1", "00042"] {
        assert_eq!(parse_text(TypeTag::I16, s), s.parse::<i16>().ok().map(Value::I16), "{s:?}");
        assert_eq!(parse_text(TypeTag::U16, s), s.parse::<u16>().ok().map(Value::U16), "{s:?}");
    }
}

#[test]
fn values_render_in_decimal() {
    assert_eq!(render(&Value::U8(0)), "0");
    assert_eq!(render(&Value::U8(1)), "1");
    assert_eq!(render(&Value::I8(-128)), "-128");
    assert_eq!(render(&Value::I32(-1)), "-1");
    assert_eq!(render(&Value::U16(1000)), "1000");
    assert_eq!(render(&Value::U128(u128::MAX)), u128::MAX.to_string());
    assert_eq!(render(&Value::I128(i128::MIN)), i128::MIN.to_string());
    assert_eq!(render(&Value::I64(i64::MAX)), i64::MAX.to_string());
}

#[test]
fn text_round_trip_is_exact_for_integers() {
    let values = vec![
        Value::U8(200),
        Value::U16(0),
        Value::U32(4_000_000_000),
        Value::U64(u64::MAX),
        Value::U128(u128::MAX / 3),
        Value::I8(-7),
        Value::I16(i16::MIN),
        Value::I32(i32::MAX),
        Value::I64(-9_000_000_000),
        Value::I128(i128::MIN),
    ];
    for v in values {
        assert_eq!(parse_text(v.type_tag(), &render(&v)), Some(v));
    }
}
