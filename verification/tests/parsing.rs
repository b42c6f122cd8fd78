use core::cmp::Ordering;
use pancake::Instruction;
use pancake::Register;
use pancake::Type;

#[test]
fn parsing_test() {
    let program = "start\n\
                   \tpush integer 100\n\
                   \tpush float -1.5e9\n\
                   \tpush boolean true\n\
                   \tpush character 'H'\n\
                   \tpush character #00\n\
                   \tpush register X\n\
                   \tpop X\n\
                   \tcopy\n\
                   \tswap\n\
                   \tjump end\n\
                   \tbranch start\n\
                   \tgoto X\n\
                   \tcall end\n\
                   \treturn\n\
                   \tcompare equal\n\
                   \tcompare unequal\n\
                   \tcompare less\n\
                   \tcompare greater\n\
                   \tadd\n\
                   \tsubtract\n\
                   \tmultiply\n\
                   \tdivide\n\
                   \tmodulo\n\
                   \tnegate X\n\
                   \tand\n\
                   \tor\n\
                   \txor\n\
                   \tnot X\n\
                   \tshift\n\
                   \trotate\n\
                   \tcast integer X\n\
                   \treinterpret integer X\n\
                   \tinput character X\n\
                   \tread character X\n\
                   \toutput X\n\
                   \twrite X\n\
                   \trandom integer X\n\
                   \tbreak\n\
                   \tdrop X\n\
                   end\n";
    let parsed = pancake::parse_file(program.as_bytes()).expect("parsing failed");
    assert_eq!(
        parsed,
        vec![
            Instruction::PushInteger(100),
            Instruction::PushFloat((-1.5e9f64).to_bits()),
            Instruction::PushBoolean(true),
            Instruction::PushCharacter(b'H'),
            Instruction::PushCharacter(b'\x00'),
            Instruction::PushRegister(Register::X),
            Instruction::Pop(Some(Register::X)),
            Instruction::Copy,
            Instruction::Swap,
            Instruction::Jump(39),
            Instruction::Branch(0),
            Instruction::Goto(Register::X),
            Instruction::Call(39),
            Instruction::Return,
            Instruction::Compare(Some(Ordering::Equal)),
            Instruction::Compare(None),
            Instruction::Compare(Some(Ordering::Less)),
            Instruction::Compare(Some(Ordering::Greater)),
            Instruction::Add,
            Instruction::Subtract,
            Instruction::Multiply,
            Instruction::Divide,
            Instruction::Modulo,
            Instruction::Negate(Register::X),
            Instruction::And,
            Instruction::Or,
            Instruction::Xor,
            Instruction::Not(Register::X),
            Instruction::Shift,
            Instruction::Rotate,
            Instruction::Cast(Type::Integer, Register::X),
            Instruction::Reinterpret(Type::Integer, Register::X),
            Instruction::Input(Type::Character, Register::X),
            Instruction::Read(Type::Character, Register::X),
            Instruction::Output(Register::X),
            Instruction::Write(Register::X),
            Instruction::Random(Type::Integer, Register::X),
            Instruction::Break,
            Instruction::Drop(Register::X)
        ]
    )
}

#[test]
fn parse_is_deterministic() {
    let program = "loop\n\tpush integer 3\n\tbranch loop\n";
    let first = pancake::parse_file(program.as_bytes());
    let second = pancake::parse_file(program.as_bytes());
    assert_eq!(first, second);
}

#[test]
fn missing_label_reports_line() {
    let program = "\tpush integer 1\n\tjump nowhere\n";
    let err = pancake::parse_file(program.as_bytes()).unwrap_err();
    assert_eq!(err, (1, pancake::Error::MissingLabel));
}

#[test]
fn unknown_opcode_reports_line() {
    let program = "top\n\tpush integer 1\n\tfrobnicate X\n";
    let err = pancake::parse_file(program.as_bytes()).unwrap_err();
    assert_eq!(err, (2, pancake::Error::InvalidInstruction));
}

#[test]
fn forward_label_reference_resolves() {
    let program = "\tjump below\n\tadd\nbelow\n\tbreak\n";
    let parsed = pancake::parse_file(program.as_bytes()).expect("parsing failed");
    assert_eq!(
        parsed,
        vec![Instruction::Jump(2), Instruction::Add, Instruction::Break]
    );
}

#[test]
fn duplicate_label_keeps_later_index() {
    let program = "here\n\tadd\nhere\n\tjump here\n";
    let parsed = pancake::parse_file(program.as_bytes()).expect("parsing failed");
    assert_eq!(parsed, vec![Instruction::Add, Instruction::Jump(1)]);
}

#[test]
fn comments_and_blank_lines_emit_nothing() {
    let program = "top\n\t* a remark about the program\n\t   \n\tadd\n\tbranch top\n";
    let parsed = pancake::parse_file(program.as_bytes()).expect("parsing failed");
    assert_eq!(parsed, vec![Instruction::Add, Instruction::Branch(0)]);
}

#[test]
fn label_names_are_trimmed() {
    let program = "  spaced  \n\tjump spaced\n";
    let parsed = pancake::parse_file(program.as_bytes()).expect("parsing failed");
    assert_eq!(parsed, vec![Instruction::Jump(0)]);
}

#[test]
fn pop_discard_uses_underscore() {
    let program = "\tpop _\n\tpop Y\n";
    let parsed = pancake::parse_file(program.as_bytes()).expect("parsing failed");
    assert_eq!(
        parsed,
        vec![Instruction::Pop(None), Instruction::Pop(Some(Register::Y))]
    );
}

#[test]
fn character_literal_forms() {
    let program = "\tpush character 'x'\n\tpush character #41\n\tpush character #ff\n";
    let parsed = pancake::parse_file(program.as_bytes()).expect("parsing failed");
    assert_eq!(
        parsed,
        vec![
            Instruction::PushCharacter(b'x'),
            Instruction::PushCharacter(0x41),
            Instruction::PushCharacter(0xFF)
        ]
    );
}

#[test]
fn malformed_character_literals_are_invalid() {
    for bad in ["\tpush character xy\n", "\tpush character 'ab'\n", "\tpush character #4g\n"] {
        let err = pancake::parse_file(bad.as_bytes()).unwrap_err();
        assert_eq!(err, (0, pancake::Error::InvalidInstruction));
    }
}

#[test]
fn integer_literal_bounds() {
    let ok = "\tpush integer -9223372036854775808\n\tpush integer +17\n\tpush integer 0012\n";
    let parsed = pancake::parse_file(ok.as_bytes()).expect("parsing failed");
    assert_eq!(
        parsed,
        vec![
            Instruction::PushInteger(i64::MIN),
            Instruction::PushInteger(17),
            Instruction::PushInteger(12)
        ]
    );
    let over = "\tpush integer 9223372036854775808\n";
    let err = pancake::parse_file(over.as_bytes()).unwrap_err();
    assert_eq!(err, (0, pancake::Error::InvalidInstruction));
}

#[test]
fn float_literals_are_decimal_only() {
    let parsed = pancake::parse_file("\tpush float 2.5\n".as_bytes()).expect("parsing failed");
    assert_eq!(parsed, vec![Instruction::PushFloat(2.5f64.to_bits())]);
    let parsed = pancake::parse_file("\tpush float .5e1\n".as_bytes()).expect("parsing failed");
    assert_eq!(parsed, vec![Instruction::PushFloat(5.0f64.to_bits())]);
    for bad in ["\tpush float inf\n", "\tpush float nan\n", "\tpush float 0x1p3\n"] {
        let err = pancake::parse_file(bad.as_bytes()).unwrap_err();
        assert_eq!(err, (0, pancake::Error::InvalidInstruction));
    }
}

#[test]
fn reinterpret_targets_are_restricted() {
    let ok = "\treinterpret float Y\n";
    let parsed = pancake::parse_file(ok.as_bytes()).expect("parsing failed");
    assert_eq!(parsed, vec![Instruction::Reinterpret(Type::Float, Register::Y)]);
    let err = pancake::parse_file("\treinterpret boolean X\n".as_bytes()).unwrap_err();
    assert_eq!(err, (0, pancake::Error::InvalidInstruction));
}

#[test]
fn missing_operands_are_invalid() {
    for bad in ["\tpush integer\n", "\tpop\n", "\tcompare\n", "\tcast integer\n", "\tnegate\n"] {
        let err = pancake::parse_file(bad.as_bytes()).unwrap_err();
        assert_eq!(err, (0, pancake::Error::InvalidInstruction));
    }
}

#[test]
fn empty_program_parses_to_nothing() {
    assert_eq!(pancake::parse_file(b""), Ok(vec![]));
    assert_eq!(pancake::parse_file(b"\n\n"), Ok(vec![]));
}

#[test]
fn final_newline_is_optional_and_crlf_is_accepted() {
    let bare = pancake::parse_file(b"\tadd").expect("parsing failed");
    assert_eq!(bare, vec![Instruction::Add]);
    let crlf = pancake::parse_file(b"top\r\n\tadd\r\n\tbranch top\r\n").expect("parsing failed");
    assert_eq!(crlf, vec![Instruction::Add, Instruction::Branch(0)]);
}
