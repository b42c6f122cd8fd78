use pancake::Type;
use pancake::Value;

#[test]
fn value_types_and_conversions() {
    assert_eq!(Value::from(3i64), Value::Integer(3));
    assert_eq!(Value::from(true), Value::Boolean(true));
    assert_eq!(Value::from(b'z'), Value::Character(b'z'));
    assert_eq!(Value::Integer(1).get_type(), Type::Integer);
    assert_eq!(Value::Float(0).get_type(), Type::Float);
    assert_eq!(Value::Boolean(false).get_type(), Type::Boolean);
    assert_eq!(Value::Character(0).get_type(), Type::Character);
}
