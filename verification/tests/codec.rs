use pancake::codec::decode_value;
use pancake::codec::encode_value;
use pancake::codec::parse_input_line;
use pancake::codec::read_width;
use pancake::codec::render_value;
use pancake::Type;
use pancake::Value;

#[test]
fn widths_match_the_binary_layout() {
    assert_eq!(read_width(Type::Integer), 8);
    assert_eq!(read_width(Type::Float), 8);
    assert_eq!(read_width(Type::Boolean), 1);
    assert_eq!(read_width(Type::Character), 1);
}

#[test]
fn integer_encoding_is_big_endian() {
    let bytes = encode_value(&Value::Integer(0x0102030405060708));
    assert_eq!(bytes, vec![1, 2, 3, 4, 5, 6, 7, 8]);
    let bytes = encode_value(&Value::Integer(-2));
    assert_eq!(bytes, vec![0xFF, 0xFF, 0xFF, 0xFF, 0xFF, 0xFF, 0xFF, 0xFE]);
}

#[test]
fn write_then_read_roundtrips_every_type() {
    let values = [
        Value::Integer(-123456789),
        Value::Integer(i64::MIN),
        Value::Float(3.25f64.to_bits()),
        Value::Float(f64::NAN.to_bits()),
        Value::Boolean(true),
        Value::Boolean(false),
        Value::Character(0),
        Value::Character(0xFF),
    ];
    for v in values {
        let t = v.get_type();
        let bytes = encode_value(&v);
        assert_eq!(bytes.len(), read_width(t));
        assert_eq!(decode_value(t, bytes.as_slice()), v, "{:?}", v);
    }
}

#[test]
fn booleans_decode_from_any_nonzero_byte() {
    assert_eq!(decode_value(Type::Boolean, &[0]), Value::Boolean(false));
    assert_eq!(decode_value(Type::Boolean, &[1]), Value::Boolean(true));
    assert_eq!(decode_value(Type::Boolean, &[7]), Value::Boolean(true));
}

#[test]
fn rendering_integers() {
    assert_eq!(render_value(&Value::Integer(0)), b"0".to_vec());
    assert_eq!(render_value(&Value::Integer(-42)), b"-42".to_vec());
    assert_eq!(render_value(&Value::Integer(1234567890)), b"1234567890".to_vec());
    assert_eq!(
        render_value(&Value::Integer(i64::MIN)),
        b"-9223372036854775808".to_vec()
    );
    assert_eq!(
        render_value(&Value::Integer(i64::MAX)),
        b"9223372036854775807".to_vec()
    );
}

#[test]
fn rendering_booleans_and_characters() {
    assert_eq!(render_value(&Value::Boolean(true)), b"true".to_vec());
    assert_eq!(render_value(&Value::Boolean(false)), b"false".to_vec());
    assert_eq!(render_value(&Value::Character(b'a')), b"a".to_vec());
    assert_eq!(render_value(&Value::Character(b'\n')), b"\\n".to_vec());
    assert_eq!(render_value(&Value::Character(b'\\')), b"\\\\".to_vec());
    assert_eq!(render_value(&Value::Character(7)), b"\\x07".to_vec());
    assert_eq!(render_value(&Value::Character(0xAB)), b"\\xab".to_vec());
}

#[test]
fn input_lines_parse_by_type() {
    assert_eq!(
        parse_input_line(Type::Integer, b"  42 \r"),
        Some(Value::Integer(42))
    );
    assert_eq!(parse_input_line(Type::Integer, b"four"), None);
    assert_eq!(
        parse_input_line(Type::Float, b"2.5"),
        Some(Value::Float(2.5f64.to_bits()))
    );
    assert_eq!(
        parse_input_line(Type::Float, b"-1e-3"),
        Some(Value::Float((-1e-3f64).to_bits()))
    );
    assert_eq!(parse_input_line(Type::Float, b"inf"), None);
    assert_eq!(
        parse_input_line(Type::Boolean, b"true"),
        Some(Value::Boolean(true))
    );
    assert_eq!(parse_input_line(Type::Boolean, b"TRUE"), None);
    assert_eq!(
        parse_input_line(Type::Character, b" abc"),
        Some(Value::Character(b'a'))
    );
    assert_eq!(parse_input_line(Type::Character, b"   "), None);
}

#[test]
fn float_parsing_handles_extremes() {
    assert_eq!(
        parse_input_line(Type::Float, b"1e309"),
        Some(Value::Float(f64::INFINITY.to_bits()))
    );
    assert_eq!(
        parse_input_line(Type::Float, b"-1e309"),
        Some(Value::Float(f64::NEG_INFINITY.to_bits()))
    );
    assert_eq!(
        parse_input_line(Type::Float, b"1e-400"),
        Some(Value::Float(0.0f64.to_bits()))
    );
    assert_eq!(
        parse_input_line(Type::Float, b"0.1"),
        Some(Value::Float(0.1f64.to_bits()))
    );
    assert_eq!(
        parse_input_line(Type::Float, b"2.2250738585072011e-308"),
        Some(Value::Float(2.2250738585072011e-308f64.to_bits()))
    );
}
