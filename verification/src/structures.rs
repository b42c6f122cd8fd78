use vstd::prelude::*;

verus! {

/// A singular value held in a register or on the stack.
///
/// Floating-point values are carried as the raw bit pattern of an
/// IEEE-754 binary64 number, so that every value is a plain integer
/// and moves, encodings and bit-level operations can be reasoned
/// about exactly.
#[derive(Debug, Clone, PartialEq, Eq, Structural)]
pub enum Value {
    Integer(i64),
    /// The IEEE-754 binary64 bit pattern of the floating-point value.
    Float(u64),
    Boolean(bool),
    Character(u8),
}

/// A type of a value.
#[derive(Debug, Copy, Clone, PartialEq, Eq, Structural)]
pub enum Type {
    Integer,
    Float,
    Boolean,
    Character,
}

/// A register.
#[derive(Debug, Copy, Clone, PartialEq, Eq, Structural)]
pub enum Register {
    X,
    Y,
}

/// A reason why parsing or execution of an instruction failed.
#[derive(Debug, Copy, Clone, PartialEq, Eq, Structural)]
pub enum Error {
    /// Attempted to divide integral values by zero.
    DivideByZero,
    /// Failed to read from the input stream.
    ReadFailed,
    /// Failed to write to the output stream.
    WriteFailed,
    /// The type of the value was invalid for the instruction.
    InvalidType(Type),
    /// Mismatched types for an instruction.
    MismatchedTypes(Type, Type),
    /// Popped from an empty stack.
    StackUnderflow,
    /// Encountered an invalid instruction while parsing.
    InvalidInstruction,
    /// A register that was read was empty.
    EmptyRegister(Register),
    /// A label operand was not declared anywhere in the program.
    MissingLabel,
}

impl Value {
    /// Get the type of this value.
    pub fn get_type(&self) -> (t: Type)
        ensures
            t == self.ty(),
    {
        match self {
            Value::Integer(_) => Type::Integer,
            Value::Float(_) => Type::Float,
            Value::Boolean(_) => Type::Boolean,
            Value::Character(_) => Type::Character,
        }
    }

    /// The type tag of this value.
    pub open spec fn ty(self) -> Type {
        match self {
            Value::Integer(_) => Type::Integer,
            Value::Float(_) => Type::Float,
            Value::Boolean(_) => Type::Boolean,
            Value::Character(_) => Type::Character,
        }
    }
}

/// The reserved instruction index that signals termination: it is
/// larger than any real program position.
pub const HALT_INDEX: usize = usize::MAX;

/// What a single execution step asks of the driver.
///
/// The engine itself never touches a stream; a step that needs one
/// reports what has to be read or written, and the driver performs it.
#[derive(Debug, Clone, PartialEq, Eq, Structural)]
pub enum Step {
    /// Go on with the next instruction in sequence.
    Next,
    /// Transfer control to the given absolute instruction index;
    /// `HALT_INDEX` means the program is over.
    Transfer(usize),
    /// Read text lines from the input stream until one parses as the
    /// type, and store the parsed value in the register.
    Input(Type, Register),
    /// Read the fixed-width binary encoding of the type from the
    /// input stream and store the decoded value in the register.
    Read(Type, Register),
    /// Render this value, already taken out of its register, as text
    /// on the output stream.
    Output(Value),
    /// Emit this value's fixed-width binary encoding on the output
    /// stream.
    Write(Value),
}

/// A singular instruction.
///
/// Jump targets are absolute instruction indices, resolved from label
/// names by the parser; floating-point literals are IEEE-754 binary64
/// bit patterns.
#[derive(Debug, Copy, Clone, PartialEq)]
pub enum Instruction {
    /// Push an integer literal. 64-bit signed, two's complement.
    PushInteger(i64),
    /// Push a floating-point literal, given as its bit pattern.
    PushFloat(u64),
    /// Push a boolean literal.
    PushBoolean(bool),
    /// Push a character literal (a single byte).
    PushCharacter(u8),
    /// Push the value held in the register, consuming it.
    /// Errors if the register is empty.
    PushRegister(Register),
    /// Pop the top of the stack into a register, or discard it.
    Pop(Option<Register>),
    /// Copy the value in X into Y.
    Copy,
    /// Exchange the contents of X and Y. Errors if either is empty.
    Swap,
    /// Store the current stack depth, as an integer, into the register.
    Length(Register),
    /// Pop a boolean off the stack and transfer to the index if it is
    /// true. Errors if the popped value is not a boolean.
    Branch(usize),
    /// Compare X and Y, consuming both, and push the boolean outcome.
    /// `None` requests the never-failing inequality test.
    Compare(Option<core::cmp::Ordering>),
    /// Add X and Y and push the sum.
    Add,
    /// Subtract Y from X and push the difference.
    Subtract,
    /// Multiply X and Y and push the product.
    Multiply,
    /// Divide X by Y and push the quotient.
    /// Errors on integer division by zero.
    Divide,
    /// Divide X by Y and push the remainder.
    /// Errors on integer division by zero.
    Modulo,
    /// Negate the value in the register, in place.
    Negate(Register),
    /// Bitwise or logical AND of X and Y; the result is pushed.
    And,
    /// Bitwise or logical OR of X and Y; the result is pushed.
    Or,
    /// Bitwise or logical XOR of X and Y; the result is pushed.
    Xor,
    /// Bitwise complement or logical negation of the register, in place.
    Not(Register),
    /// Shift the integer in X by the signed bit count in Y (negative
    /// means left), discarding shifted-out bits; the result is pushed.
    Shift,
    /// Rotate the integer in X by the signed bit count in Y (negative
    /// means left), wrapping shifted-out bits; the result is pushed.
    Rotate,
    /// Convert the register's value to the target type in place and
    /// push whether the conversion succeeded.
    Cast(Type, Register),
    /// Reinterpret the register's bit pattern as the target type in
    /// place and push whether the reinterpretation succeeded.
    Reinterpret(Type, Register),
    /// Read successive text lines from the input stream until one
    /// parses as the requested type; store the value in the register.
    Input(Type, Register),
    /// Read the fixed-width binary encoding of the requested type from
    /// the input stream and store the decoded value in the register.
    Read(Type, Register),
    /// Render the register's value as text on the output stream,
    /// consuming it.
    Output(Register),
    /// Emit the register's value in fixed-width binary on the output
    /// stream, consuming it.
    Write(Register),
    /// Store a random value of the requested type in the register.
    Random(Type, Register),
    /// Immediately halt the program.
    Break,
    /// Clear the register without touching the stack.
    Drop(Register),
    /// Transfer to the integer index held in the register, consuming
    /// it; a negative index means halt.
    Goto(Register),
    /// Transfer unconditionally to the index.
    Jump(usize),
    /// Push the current instruction index as a return address, then
    /// transfer to the index.
    Call(usize),
    /// Pop an integer return address off the stack and transfer to it.
    Return,
}

impl From<i64> for Value {
    fn from(value: i64) -> Self {
        Value::Integer(value)
    }
}

impl vstd::std_specs::convert::FromSpecImpl<i64> for Value {
    open spec fn obeys_from_spec() -> bool {
        true
    }

    open spec fn from_spec(v: i64) -> Value {
        Value::Integer(v)
    }
}

impl From<bool> for Value {
    fn from(value: bool) -> Self {
        Value::Boolean(value)
    }
}

impl vstd::std_specs::convert::FromSpecImpl<bool> for Value {
    open spec fn obeys_from_spec() -> bool {
        true
    }

    open spec fn from_spec(v: bool) -> Value {
        Value::Boolean(v)
    }
}

impl From<u8> for Value {
    fn from(value: u8) -> Self {
        Value::Character(value)
    }
}

impl vstd::std_specs::convert::FromSpecImpl<u8> for Value {
    open spec fn obeys_from_spec() -> bool {
        true
    }

    open spec fn from_spec(v: u8) -> Value {
        Value::Character(v)
    }
}

} // verus!
