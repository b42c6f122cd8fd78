use std::cmp::Ordering;
use pancake::Error;
use pancake::Instruction;
use pancake::Interpreter;
use pancake::Register;
use pancake::Step;
use pancake::Type;
use pancake::Value;
use pancake::HALT_INDEX;

fn fresh() -> Interpreter {
    Interpreter::default()
}

#[test]
fn wrapping_add_wraps_at_the_edge() {
    let mut m = fresh();
    m.x = Some(Value::Integer(i64::MAX));
    m.y = Some(Value::Integer(1));
    let step = m.execute(0, Instruction::Add).expect("add must not fault");
    assert_eq!(step, Step::Next);
    assert_eq!(m.stack, vec![Value::Integer(i64::MIN)]);
    assert_eq!(m.x, None);
    assert_eq!(m.y, None);
}

#[test]
fn wrapping_subtract_and_multiply() {
    let mut m = fresh();
    m.x = Some(Value::Integer(i64::MIN));
    m.y = Some(Value::Integer(1));
    m.execute(0, Instruction::Subtract).expect("subtract must not fault");
    assert_eq!(m.stack, vec![Value::Integer(i64::MAX)]);

    let mut m = fresh();
    m.x = Some(Value::Integer(i64::MAX));
    m.y = Some(Value::Integer(2));
    m.execute(0, Instruction::Multiply).expect("multiply must not fault");
    assert_eq!(m.stack, vec![Value::Integer(-2)]);
}

#[test]
fn divide_by_integer_zero_reports_and_consumes() {
    // The registers are loaded through the stack, as a program would.
    let mut m = fresh();
    m.execute(0, Instruction::PushInteger(100)).unwrap();
    m.execute(1, Instruction::PushInteger(0)).unwrap();
    m.execute(2, Instruction::Pop(Some(Register::Y))).unwrap();
    m.execute(3, Instruction::Pop(Some(Register::X))).unwrap();
    let err = m.execute(4, Instruction::Divide).unwrap_err();
    assert_eq!(err, Error::DivideByZero);
    assert_eq!(m.x, None);
    assert_eq!(m.y, None);
    assert_eq!(m.stack, vec![]);
    let mut m = fresh();
    m.x = Some(Value::Integer(7));
    m.y = Some(Value::Integer(0));
    assert_eq!(m.execute(0, Instruction::Modulo).unwrap_err(), Error::DivideByZero);
}

#[test]
fn division_wraps_at_the_signed_edge() {
    let mut m = fresh();
    m.x = Some(Value::Integer(i64::MIN));
    m.y = Some(Value::Integer(-1));
    m.execute(0, Instruction::Divide).expect("divide must not fault");
    assert_eq!(m.stack, vec![Value::Integer(i64::MIN)]);
    let mut m = fresh();
    m.x = Some(Value::Integer(i64::MIN));
    m.y = Some(Value::Integer(-1));
    m.execute(0, Instruction::Modulo).expect("modulo must not fault");
    assert_eq!(m.stack, vec![Value::Integer(0)]);
}

#[test]
fn float_division_by_zero_never_errors() {
    let mut m = fresh();
    m.x = Some(Value::Float(1.0f64.to_bits()));
    m.y = Some(Value::Float(0.0f64.to_bits()));
    m.execute(0, Instruction::Divide).expect("float divide must not fault");
    assert_eq!(m.stack, vec![Value::Float(f64::INFINITY.to_bits())]);

    let mut m = fresh();
    m.x = Some(Value::Float(0.0f64.to_bits()));
    m.y = Some(Value::Float(0.0f64.to_bits()));
    m.execute(0, Instruction::Divide).expect("float divide must not fault");
    match m.stack[0] {
        Value::Float(bits) => assert!(f64::from_bits(bits).is_nan()),
        ref other => panic!("expected a float, got {:?}", other),
    }
}

#[test]
fn float_arithmetic_matches_ieee() {
    let cases = [
        (Instruction::Add, 1.5f64, 2.25f64, 1.5f64 + 2.25f64),
        (Instruction::Subtract, 1.0, 0.1, 1.0f64 - 0.1f64),
        (Instruction::Multiply, 3.5, -2.0, 3.5f64 * -2.0f64),
        (Instruction::Divide, 1.0, 3.0, 1.0f64 / 3.0f64),
        (Instruction::Modulo, 5.5, 2.0, 5.5f64 % 2.0f64),
        (Instruction::Modulo, -5.5, 2.0, -5.5f64 % 2.0f64),
    ];
    for (instr, a, b, want) in cases {
        let mut m = fresh();
        m.x = Some(Value::Float(a.to_bits()));
        m.y = Some(Value::Float(b.to_bits()));
        m.execute(0, instr).expect("float arithmetic must not fault");
        assert_eq!(m.stack, vec![Value::Float(want.to_bits())], "{:?}", instr);
    }
}

#[test]
fn mismatched_arithmetic_reports_both_types() {
    let mut m = fresh();
    m.x = Some(Value::Integer(1));
    m.y = Some(Value::Float(1.0f64.to_bits()));
    let err = m.execute(0, Instruction::Add).unwrap_err();
    assert_eq!(err, Error::MismatchedTypes(Type::Integer, Type::Float));
}

#[test]
fn cast_to_same_type_is_noop_with_true() {
    let mut m = fresh();
    m.x = Some(Value::Integer(7));
    let step = m.execute(0, Instruction::Cast(Type::Integer, Register::X)).unwrap();
    assert_eq!(step, Step::Next);
    assert_eq!(m.x, Some(Value::Integer(7)));
    assert_eq!(m.stack, vec![Value::Boolean(true)]);

    let mut m = fresh();
    m.y = Some(Value::Float(2.5f64.to_bits()));
    m.execute(0, Instruction::Reinterpret(Type::Float, Register::Y)).unwrap();
    assert_eq!(m.y, Some(Value::Float(2.5f64.to_bits())));
    assert_eq!(m.stack, vec![Value::Boolean(true)]);
}

#[test]
fn cast_conversions() {
    let mut m = fresh();
    m.x = Some(Value::Boolean(true));
    m.execute(0, Instruction::Cast(Type::Integer, Register::X)).unwrap();
    assert_eq!(m.x, Some(Value::Integer(1)));

    let mut m = fresh();
    m.x = Some(Value::Integer(3));
    m.execute(0, Instruction::Cast(Type::Float, Register::X)).unwrap();
    assert_eq!(m.x, Some(Value::Float(3.0f64.to_bits())));

    let mut m = fresh();
    m.x = Some(Value::Float((-2.75f64).to_bits()));
    m.execute(0, Instruction::Cast(Type::Integer, Register::X)).unwrap();
    assert_eq!(m.x, Some(Value::Integer(-2)));

    let mut m = fresh();
    m.x = Some(Value::Float(f64::NAN.to_bits()));
    m.execute(0, Instruction::Cast(Type::Integer, Register::X)).unwrap();
    assert_eq!(m.x, Some(Value::Integer(0)));

    let mut m = fresh();
    m.x = Some(Value::Float(1.0e300f64.to_bits()));
    m.execute(0, Instruction::Cast(Type::Integer, Register::X)).unwrap();
    assert_eq!(m.x, Some(Value::Integer(i64::MAX)));

    let mut m = fresh();
    m.x = Some(Value::Integer(0x1_41));
    m.execute(0, Instruction::Cast(Type::Character, Register::X)).unwrap();
    assert_eq!(m.x, Some(Value::Character(0x41)));

    let mut m = fresh();
    m.x = Some(Value::Character(7));
    let err = m.execute(0, Instruction::Cast(Type::Integer, Register::X)).unwrap_err();
    assert_eq!(err, Error::MismatchedTypes(Type::Integer, Type::Character));
}

#[test]
fn reinterpret_uses_the_bit_pattern() {
    let mut m = fresh();
    m.x = Some(Value::Float(1.5f64.to_bits()));
    m.execute(0, Instruction::Reinterpret(Type::Integer, Register::X)).unwrap();
    assert_eq!(m.x, Some(Value::Integer(1.5f64.to_bits() as i64)));

    let mut m = fresh();
    m.x = Some(Value::Integer(0x3FF8_0000_0000_0000));
    m.execute(0, Instruction::Reinterpret(Type::Float, Register::X)).unwrap();
    assert_eq!(m.x, Some(Value::Float(1.5f64.to_bits())));

    let mut m = fresh();
    m.x = Some(Value::Character(65));
    m.execute(0, Instruction::Reinterpret(Type::Integer, Register::X)).unwrap();
    assert_eq!(m.x, Some(Value::Integer(65)));
}

#[test]
fn compare_unequal_across_types_never_errors() {
    let mut m = fresh();
    m.x = Some(Value::Integer(1));
    m.y = Some(Value::Boolean(true));
    let step = m.execute(0, Instruction::Compare(None)).expect("unequal must not fault");
    assert_eq!(step, Step::Next);
    assert_eq!(m.stack, vec![Value::Boolean(true)]);
}

#[test]
fn widening_a_large_integer_rounds_like_a_float_cast() {
    // i64::MAX rounds up to 2^63 as a double, so the two compare equal.
    let mut m = fresh();
    m.x = Some(Value::Integer(i64::MAX));
    m.y = Some(Value::Float((9223372036854775807f64).to_bits()));
    m.execute(0, Instruction::Compare(Some(Ordering::Equal))).unwrap();
    assert_eq!(m.stack, vec![Value::Boolean(true)]);
}

#[test]
fn negative_return_address_wraps_out_of_range() {
    let mut m = fresh();
    m.execute(0, Instruction::PushInteger(-1)).unwrap();
    let step = m.execute(1, Instruction::Return).unwrap();
    assert_eq!(step, Step::Transfer(usize::MAX));
}

#[test]
fn compare_orders_values() {
    let mut m = fresh();
    m.x = Some(Value::Integer(1));
    m.y = Some(Value::Float(1.5f64.to_bits()));
    m.execute(0, Instruction::Compare(Some(Ordering::Less))).unwrap();
    assert_eq!(m.stack, vec![Value::Boolean(true)]);

    let mut m = fresh();
    m.x = Some(Value::Boolean(false));
    m.y = Some(Value::Boolean(true));
    m.execute(0, Instruction::Compare(Some(Ordering::Less))).unwrap();
    assert_eq!(m.stack, vec![Value::Boolean(true)]);

    let mut m = fresh();
    m.x = Some(Value::Float(f64::NAN.to_bits()));
    m.y = Some(Value::Float(f64::NAN.to_bits()));
    m.execute(0, Instruction::Compare(Some(Ordering::Equal))).unwrap();
    assert_eq!(m.stack, vec![Value::Boolean(false)]);

    let mut m = fresh();
    m.x = Some(Value::Float(0.0f64.to_bits()));
    m.y = Some(Value::Float((-0.0f64).to_bits()));
    m.execute(0, Instruction::Compare(Some(Ordering::Equal))).unwrap();
    assert_eq!(m.stack, vec![Value::Boolean(true)]);

    let mut m = fresh();
    m.x = Some(Value::Boolean(true));
    m.y = Some(Value::Character(1));
    let err = m.execute(0, Instruction::Compare(Some(Ordering::Less))).unwrap_err();
    assert_eq!(err, Error::MismatchedTypes(Type::Boolean, Type::Character));
}

#[test]
fn shift_direction_follows_the_sign_of_y() {
    let mut m = fresh();
    m.x = Some(Value::Integer(1));
    m.y = Some(Value::Integer(-1));
    m.execute(0, Instruction::Shift).unwrap();
    assert_eq!(m.stack, vec![Value::Integer(2)]);

    let mut m = fresh();
    m.x = Some(Value::Integer(1));
    m.y = Some(Value::Integer(1));
    m.execute(0, Instruction::Shift).unwrap();
    assert_eq!(m.stack, vec![Value::Integer(0)]);
}

#[test]
fn shift_is_logical_and_rotate_wraps() {
    let mut m = fresh();
    m.x = Some(Value::Integer(-1));
    m.y = Some(Value::Integer(1));
    m.execute(0, Instruction::Shift).unwrap();
    assert_eq!(m.stack, vec![Value::Integer(i64::MAX)]);

    let mut m = fresh();
    m.x = Some(Value::Integer(1));
    m.y = Some(Value::Integer(1));
    m.execute(0, Instruction::Rotate).unwrap();
    assert_eq!(m.stack, vec![Value::Integer(i64::MIN)]);

    let mut m = fresh();
    m.x = Some(Value::Integer(i64::MIN));
    m.y = Some(Value::Integer(-1));
    m.execute(0, Instruction::Rotate).unwrap();
    assert_eq!(m.stack, vec![Value::Integer(1)]);
}

#[test]
fn push_register_on_empty_register_changes_nothing() {
    let mut m = fresh();
    m.execute(0, Instruction::PushInteger(9)).unwrap();
    let err = m.execute(1, Instruction::PushRegister(Register::X)).unwrap_err();
    assert_eq!(err, Error::EmptyRegister(Register::X));
    assert_eq!(m.stack, vec![Value::Integer(9)]);
    assert_eq!(m.x, None);
    assert_eq!(m.y, None);
}

#[test]
fn branch_loop_scenario() {
    let program = "L\n\tpush boolean true\n\tbranch L\n";
    let parsed = pancake::parse_file(program.as_bytes()).expect("parsing failed");
    assert_eq!(parsed, vec![Instruction::PushBoolean(true), Instruction::Branch(0)]);
    let mut m = fresh();
    // Drive a few steps by hand: the branch keeps transferring back.
    let mut index = 0;
    for _ in 0..6 {
        let step = m.execute(index, parsed[index]).expect("step must not fault");
        index = match step {
            Step::Next => index + 1,
            Step::Transfer(to) => to,
            ref other => panic!("unexpected stream request {:?}", other),
        };
    }
    assert_eq!(index, 0);
    assert_eq!(m.stack, vec![]);
}

#[test]
fn negate_and_not_work_in_place() {
    let mut m = fresh();
    m.x = Some(Value::Integer(i64::MIN));
    m.execute(0, Instruction::Negate(Register::X)).expect("negate must not fault");
    assert_eq!(m.x, Some(Value::Integer(i64::MIN)));

    let mut m = fresh();
    m.x = Some(Value::Float(2.5f64.to_bits()));
    m.execute(0, Instruction::Negate(Register::X)).unwrap();
    assert_eq!(m.x, Some(Value::Float((-2.5f64).to_bits())));

    let mut m = fresh();
    m.x = Some(Value::Float(0.0f64.to_bits()));
    m.execute(0, Instruction::Negate(Register::X)).unwrap();
    assert_eq!(m.x, Some(Value::Float((-0.0f64).to_bits())));

    let mut m = fresh();
    m.y = Some(Value::Integer(0));
    m.execute(0, Instruction::Not(Register::Y)).unwrap();
    assert_eq!(m.y, Some(Value::Integer(-1)));

    let mut m = fresh();
    m.y = Some(Value::Boolean(false));
    m.execute(0, Instruction::Not(Register::Y)).unwrap();
    assert_eq!(m.y, Some(Value::Boolean(true)));

    let mut m = fresh();
    m.x = Some(Value::Character(1));
    let err = m.execute(0, Instruction::Negate(Register::X)).unwrap_err();
    assert_eq!(err, Error::InvalidType(Type::Character));
    assert_eq!(m.x, Some(Value::Character(1)));
}

#[test]
fn logic_on_integers_and_booleans() {
    let mut m = fresh();
    m.x = Some(Value::Integer(0b1100));
    m.y = Some(Value::Integer(0b1010));
    m.execute(0, Instruction::And).unwrap();
    assert_eq!(m.stack, vec![Value::Integer(0b1000)]);

    let mut m = fresh();
    m.x = Some(Value::Boolean(true));
    m.y = Some(Value::Boolean(false));
    m.execute(0, Instruction::Xor).unwrap();
    assert_eq!(m.stack, vec![Value::Boolean(true)]);

    let mut m = fresh();
    m.x = Some(Value::Integer(1));
    m.y = Some(Value::Boolean(true));
    let err = m.execute(0, Instruction::Or).unwrap_err();
    assert_eq!(err, Error::MismatchedTypes(Type::Integer, Type::Boolean));
}

#[test]
fn stack_and_register_bookkeeping() {
    let mut m = fresh();
    m.execute(0, Instruction::PushInteger(1)).unwrap();
    m.execute(1, Instruction::PushInteger(2)).unwrap();
    m.execute(2, Instruction::Length(Register::X)).unwrap();
    assert_eq!(m.x, Some(Value::Integer(2)));

    m.execute(3, Instruction::Copy).unwrap();
    assert_eq!(m.y, Some(Value::Integer(2)));
    assert_eq!(m.x, Some(Value::Integer(2)));

    m.x = Some(Value::Integer(7));
    m.execute(4, Instruction::Swap).unwrap();
    assert_eq!(m.x, Some(Value::Integer(2)));
    assert_eq!(m.y, Some(Value::Integer(7)));

    m.execute(5, Instruction::Drop(Register::Y)).unwrap();
    assert_eq!(m.y, None);

    m.execute(6, Instruction::Pop(None)).unwrap();
    assert_eq!(m.stack, vec![Value::Integer(1)]);

    let err = m.execute(7, Instruction::Swap).unwrap_err();
    assert_eq!(err, Error::EmptyRegister(Register::Y));
}

#[test]
fn pop_on_empty_stack_underflows() {
    let mut m = fresh();
    assert_eq!(m.execute(0, Instruction::Pop(Some(Register::X))).unwrap_err(), Error::StackUnderflow);
    assert_eq!(m.execute(0, Instruction::Return).unwrap_err(), Error::StackUnderflow);
    assert_eq!(m.execute(0, Instruction::Branch(3)).unwrap_err(), Error::StackUnderflow);
}

#[test]
fn control_flow_steps() {
    let mut m = fresh();
    assert_eq!(m.execute(5, Instruction::Jump(9)).unwrap(), Step::Transfer(9));
    assert_eq!(m.execute(5, Instruction::Break).unwrap(), Step::Transfer(HALT_INDEX));

    assert_eq!(m.execute(5, Instruction::Call(2)).unwrap(), Step::Transfer(2));
    assert_eq!(m.stack, vec![Value::Integer(5)]);
    assert_eq!(m.execute(6, Instruction::Return).unwrap(), Step::Transfer(5));

    m.x = Some(Value::Integer(-3));
    assert_eq!(m.execute(0, Instruction::Goto(Register::X)).unwrap(), Step::Transfer(HALT_INDEX));
    assert_eq!(m.x, None);
    m.x = Some(Value::Integer(4));
    assert_eq!(m.execute(0, Instruction::Goto(Register::X)).unwrap(), Step::Transfer(4));

    m.execute(0, Instruction::PushBoolean(false)).unwrap();
    assert_eq!(m.execute(1, Instruction::Branch(0)).unwrap(), Step::Next);
    m.execute(1, Instruction::PushInteger(3)).unwrap();
    assert_eq!(m.execute(2, Instruction::Branch(0)).unwrap_err(), Error::InvalidType(Type::Integer));
}

#[test]
fn io_instructions_request_stream_work() {
    let mut m = fresh();
    assert_eq!(
        m.execute(0, Instruction::Input(Type::Integer, Register::X)).unwrap(),
        Step::Input(Type::Integer, Register::X)
    );
    assert_eq!(
        m.execute(0, Instruction::Read(Type::Float, Register::Y)).unwrap(),
        Step::Read(Type::Float, Register::Y)
    );
    m.x = Some(Value::Integer(42));
    assert_eq!(m.execute(0, Instruction::Output(Register::X)).unwrap(), Step::Output(Value::Integer(42)));
    assert_eq!(m.x, None);
    assert_eq!(
        m.execute(0, Instruction::Write(Register::X)).unwrap_err(),
        Error::EmptyRegister(Register::X)
    );
}

#[test]
fn random_fills_the_register_with_the_requested_type() {
    let mut m = fresh();
    m.execute(0, Instruction::Random(Type::Boolean, Register::X)).unwrap();
    assert!(matches!(m.x, Some(Value::Boolean(_))));
    m.execute(0, Instruction::Random(Type::Integer, Register::Y)).unwrap();
    assert!(matches!(m.y, Some(Value::Integer(_))));
    for _ in 0..64 {
        m.execute(0, Instruction::Random(Type::Float, Register::X)).unwrap();
        match m.x {
            Some(Value::Float(bits)) => {
                let v = f64::from_bits(bits);
                assert!(0.0 <= v && v < 1.0);
            }
            ref other => panic!("expected a float, got {:?}", other),
        }
    }
}
