//! The execution engine: one instruction is executed per call against
//! the machine state, and the caller is told how to continue.
//!
//! The whole instruction semantics is written down once, as the
//! transition function `step_spec` over the mathematical machine
//! state; `execute` is verified to implement it exactly for every
//! instruction whose outcome is a function of the state (everything
//! but `random`, whose outcome is only constrained).

use vstd::prelude::*;
use core::cmp::Ordering;
use crate::structures::Error;
use crate::structures::Instruction;
use crate::structures::Register;
use crate::structures::Step;
use crate::structures::Type;
use crate::structures::Value;
use crate::structures::HALT_INDEX;
use crate::float::f_add;
use crate::float::f_div;
use crate::float::f_eq;
use crate::float::f_is_nan;
use crate::float::f_key;
use crate::float::f_mul;
use crate::float::f_neg;
use crate::float::f_of_i64;
use crate::float::f_rem;
use crate::float::f_sub;
use crate::float::f_trunc;
use crate::float::float_add;
use crate::float::float_div;
use crate::float::float_eq;
use crate::float::float_lt;
use crate::float::float_mul;
use crate::float::float_neg;
use crate::float::float_of_int;
use crate::float::float_rem;
use crate::float::float_sub;
use crate::float::float_trunc_to_int;
use crate::rng::fresh_rng;
use crate::rng::RngSource;
use crate::rng::in_unit_interval;
use crate::rng::random_bool;
use crate::rng::random_i64;
use crate::rng::random_u64;
use crate::rng::random_u8;
use crate::rng::unit_interval_bits;

verus! {

/// The mathematical view of the machine: the two registers and the
/// operand stack.
#[verifier::ext_equal]
pub ghost struct MachineState {
    pub x: Option<Value>,
    pub y: Option<Value>,
    pub stack: Seq<Value>,
}

/// The content of a register.
pub open spec fn reg_of(s: MachineState, r: Register) -> Option<Value> {
    match r {
        Register::X => s.x,
        Register::Y => s.y,
    }
}

/// The state with one register replaced.
pub open spec fn with_reg(s: MachineState, r: Register, v: Option<Value>) -> MachineState {
    match r {
        Register::X => MachineState { x: v, ..s },
        Register::Y => MachineState { y: v, ..s },
    }
}

/// The quotient of truncated division, wrapped on overflow: the one
/// overflowing case, `i64::MIN / -1`, wraps back to `i64::MIN`.
pub open spec fn wrap_div(a: i64, b: i64) -> i64 {
    match a.checked_div(b) {
        Some(q) => q,
        None => i64::MIN,
    }
}

/// The remainder of truncated division, wrapped on overflow: the one
/// overflowing case, `i64::MIN % -1`, yields 0.
pub open spec fn wrap_rem(a: i64, b: i64) -> i64 {
    match a.checked_rem(b) {
        Some(m) => m,
        None => 0,
    }
}

/// The magnitude of a signed 64-bit integer.
pub open spec fn abs_i64(y: i64) -> u64 {
    if y >= 0 {
        y as u64
    } else {
        (-(y as int)) as u64
    }
}

/// The result of an arithmetic instruction on two operand values.
pub open spec fn arith_value(instr: Instruction, l: Value, r: Value) -> Result<Value, Error> {
    match (l, r) {
        (Value::Integer(a), Value::Integer(b)) => match instr {
            Instruction::Add => Ok(Value::Integer(vstd::wrapping::i64_specs::wrapping_add(a, b))),
            Instruction::Subtract => Ok(
                Value::Integer(vstd::wrapping::i64_specs::wrapping_sub(a, b)),
            ),
            Instruction::Multiply => Ok(
                Value::Integer(vstd::wrapping::i64_specs::wrapping_mul(a, b)),
            ),
            Instruction::Divide => if b == 0 {
                Err(Error::DivideByZero)
            } else {
                Ok(Value::Integer(wrap_div(a, b)))
            },
            Instruction::Modulo => if b == 0 {
                Err(Error::DivideByZero)
            } else {
                Ok(Value::Integer(wrap_rem(a, b)))
            },
            _ => arbitrary(),
        },
        (Value::Float(a), Value::Float(b)) => match instr {
            Instruction::Add => Ok(Value::Float(f_add(a, b))),
            Instruction::Subtract => Ok(Value::Float(f_sub(a, b))),
            Instruction::Multiply => Ok(Value::Float(f_mul(a, b))),
            Instruction::Divide => Ok(Value::Float(f_div(a, b))),
            Instruction::Modulo => Ok(Value::Float(f_rem(a, b))),
            _ => arbitrary(),
        },
        _ => Err(Error::MismatchedTypes(l.ty(), r.ty())),
    }
}

/// The result of a bitwise or logical instruction on two operand
/// values.
pub open spec fn logic_value(instr: Instruction, l: Value, r: Value) -> Result<Value, Error> {
    match (l, r) {
        (Value::Integer(a), Value::Integer(b)) => match instr {
            Instruction::And => Ok(Value::Integer(a & b)),
            Instruction::Or => Ok(Value::Integer(a | b)),
            Instruction::Xor => Ok(Value::Integer(a ^ b)),
            _ => arbitrary(),
        },
        (Value::Boolean(a), Value::Boolean(b)) => match instr {
            Instruction::And => Ok(Value::Boolean(a && b)),
            Instruction::Or => Ok(Value::Boolean(a || b)),
            Instruction::Xor => Ok(Value::Boolean(a != b)),
            _ => arbitrary(),
        },
        _ => Err(Error::MismatchedTypes(l.ty(), r.ty())),
    }
}

/// Whether two values are unequal: values of different types are
/// always unequal, floats compare by IEEE-754 equality.
pub open spec fn values_unequal(l: Value, r: Value) -> bool {
    match (l, r) {
        (Value::Integer(a), Value::Integer(b)) => a != b,
        (Value::Float(a), Value::Float(b)) => !f_eq(a, b),
        (Value::Boolean(a), Value::Boolean(b)) => a != b,
        (Value::Character(a), Value::Character(b)) => a != b,
        _ => true,
    }
}

/// The ordering of two mathematical integers.
pub open spec fn int_ordering(a: int, b: int) -> Ordering {
    if a < b {
        Ordering::Less
    } else if a == b {
        Ordering::Equal
    } else {
        Ordering::Greater
    }
}

/// The IEEE-754 partial ordering of two float patterns: none if
/// either is NaN.
pub open spec fn float_ordering(a: u64, b: u64) -> Option<Ordering> {
    if f_is_nan(a) || f_is_nan(b) {
        None
    } else {
        Some(int_ordering(f_key(a), f_key(b)))
    }
}

/// The ordering of two operand values, or the error for a pair that
/// has no order. An integer meeting a float is widened to a float
/// first; a float pair follows the IEEE-754 partial order; any other
/// pair of differing types is refused.
pub open spec fn order_values(l: Value, r: Value) -> Result<Option<Ordering>, Error> {
    match (l, r) {
        (Value::Integer(a), Value::Integer(b)) => Ok(Some(int_ordering(a as int, b as int))),
        (Value::Boolean(a), Value::Boolean(b)) => Ok(
            Some(
                if a == b {
                    Ordering::Equal
                } else if b {
                    Ordering::Less
                } else {
                    Ordering::Greater
                },
            ),
        ),
        (Value::Character(a), Value::Character(b)) => Ok(Some(int_ordering(a as int, b as int))),
        (Value::Float(a), Value::Float(b)) => Ok(float_ordering(a, b)),
        (Value::Integer(a), Value::Float(b)) => Ok(float_ordering(f_of_i64(a), b)),
        (Value::Float(a), Value::Integer(b)) => Ok(float_ordering(a, f_of_i64(b))),
        _ => Err(Error::MismatchedTypes(l.ty(), r.ty())),
    }
}

/// The boolean a `compare` instruction pushes, or its error.
pub open spec fn compare_value(kind: Option<Ordering>, l: Value, r: Value) -> Result<
    Value,
    Error,
> {
    match kind {
        None => Ok(Value::Boolean(values_unequal(l, r))),
        Some(ord) => match order_values(l, r) {
            Ok(po) => Ok(Value::Boolean(po == Some(ord))),
            Err(e) => Err(e),
        },
    }
}

/// The result pushed by a two-operand instruction, or its error.
pub open spec fn binary_value(instr: Instruction, l: Value, r: Value) -> Result<Value, Error> {
    match instr {
        Instruction::Add
        | Instruction::Subtract
        | Instruction::Multiply
        | Instruction::Divide
        | Instruction::Modulo => arith_value(instr, l, r),
        Instruction::And | Instruction::Or | Instruction::Xor => logic_value(instr, l, r),
        Instruction::Compare(kind) => compare_value(kind, l, r),
        _ => arbitrary(),
    }
}

/// A left rotation of a 64-bit pattern.
pub open spec fn rotl64(x: u64, n: u32) -> u64 {
    let k = (n % 64) as u64;
    if k == 0 {
        x
    } else {
        (x << k) | (x >> ((64 - k) as u64))
    }
}

/// A right rotation of a 64-bit pattern.
pub open spec fn rotr64(x: u64, n: u32) -> u64 {
    let k = (n % 64) as u64;
    if k == 0 {
        x
    } else {
        (x >> k) | (x << ((64 - k) as u64))
    }
}

/// The bit count a `shift` or `rotate` takes from the signed amount:
/// its magnitude, reduced to 32 bits.
pub open spec fn shift_count(y: i64) -> u32 {
    abs_i64(y) as u32
}

/// The result of a `shift`: a logical shift left for a negative
/// amount, a logical shift right otherwise.
pub open spec fn shift_value(x: i64, y: i64) -> i64 {
    if y < 0 {
        vstd::wrapping::i64_specs::wrapping_shl(x, shift_count(y))
    } else {
        vstd::wrapping::u64_specs::wrapping_shr(x as u64, shift_count(y)) as i64
    }
}

/// The result of a `rotate`: left for a negative amount, right
/// otherwise.
pub open spec fn rotate_value(x: i64, y: i64) -> i64 {
    if y < 0 {
        rotl64(x as u64, shift_count(y)) as i64
    } else {
        rotr64(x as u64, shift_count(y)) as i64
    }
}

/// The converted value of a `cast` between distinct types, or its
/// error.
pub open spec fn cast_value(v: Value, t: Type) -> Result<Value, Error> {
    match (v, t) {
        (Value::Boolean(b), Type::Integer) => Ok(
            Value::Integer(
                if b {
                    1
                } else {
                    0
                },
            ),
        ),
        (Value::Boolean(b), Type::Character) => Ok(
            Value::Character(
                if b {
                    1
                } else {
                    0
                },
            ),
        ),
        (Value::Integer(i), Type::Boolean) => Ok(Value::Boolean(i != 0)),
        (Value::Integer(i), Type::Float) => Ok(Value::Float(f_of_i64(i))),
        (Value::Integer(i), Type::Character) => Ok(Value::Character(i as u8)),
        (Value::Float(f), Type::Integer) => Ok(Value::Integer(f_trunc(f))),
        _ => Err(Error::MismatchedTypes(t, v.ty())),
    }
}

/// The reinterpreted value of a `reinterpret` between distinct types,
/// or its error.
pub open spec fn reinterpret_value(v: Value, t: Type) -> Result<Value, Error> {
    match (v, t) {
        (Value::Boolean(b), Type::Integer) => Ok(
            Value::Integer(
                if b {
                    1
                } else {
                    0
                },
            ),
        ),
        (Value::Boolean(b), Type::Character) => Ok(
            Value::Character(
                if b {
                    1
                } else {
                    0
                },
            ),
        ),
        (Value::Integer(i), Type::Float) => Ok(Value::Float(i as u64)),
        (Value::Float(f), Type::Integer) => Ok(Value::Integer(f as i64)),
        (Value::Character(c), Type::Integer) => Ok(Value::Integer(c as i64)),
        _ => Err(Error::MismatchedTypes(t, v.ty())),
    }
}

/// One step of a two-operand instruction: X and then Y are consumed,
/// and the result is pushed. A consumed register stays consumed when
/// a later part of the step fails.
pub open spec fn binary_step(s: MachineState, instr: Instruction) -> (MachineState, Result<
    Step,
    Error,
>) {
    match s.x {
        None => (s, Err(Error::EmptyRegister(Register::X))),
        Some(l) => match s.y {
            None => (MachineState { x: None, ..s }, Err(Error::EmptyRegister(Register::Y))),
            Some(r) => {
                let s2 = MachineState { x: None, y: None, ..s };
                match binary_value(instr, l, r) {
                    Ok(v) => (MachineState { stack: s2.stack.push(v), ..s2 }, Ok(Step::Next)),
                    Err(e) => (s2, Err(e)),
                }
            },
        },
    }
}

/// One step of `shift` or `rotate`: X and Y are consumed one after
/// the other, each checked to be an integer as it is taken.
pub open spec fn shift_step(s: MachineState, rotate: bool) -> (MachineState, Result<Step, Error>) {
    match s.x {
        None => (s, Err(Error::EmptyRegister(Register::X))),
        Some(l) => {
            let s1 = MachineState { x: None, ..s };
            match l {
                Value::Integer(a) => match s.y {
                    None => (s1, Err(Error::EmptyRegister(Register::Y))),
                    Some(r) => {
                        let s2 = MachineState { y: None, ..s1 };
                        match r {
                            Value::Integer(b) => {
                                let v = Value::Integer(
                                    if rotate {
                                        rotate_value(a, b)
                                    } else {
                                        shift_value(a, b)
                                    },
                                );
                                (MachineState { stack: s2.stack.push(v), ..s2 }, Ok(Step::Next))
                            },
                            _ => (s2, Err(Error::InvalidType(r.ty()))),
                        }
                    },
                },
                _ => (s1, Err(Error::InvalidType(l.ty()))),
            }
        },
    }
}

/// One step of an in-place unary instruction (`negate` or `not`): the
/// register is read, not consumed, and rewritten on success.
pub open spec fn unary_step(s: MachineState, negate: bool, r: Register) -> (MachineState, Result<
    Step,
    Error,
>) {
    match reg_of(s, r) {
        None => (s, Err(Error::EmptyRegister(r))),
        Some(v) => {
            let res: Result<Value, Error> = if negate {
                match v {
                    Value::Integer(a) => Ok(
                        Value::Integer(
                            if a == i64::MIN {
                                i64::MIN
                            } else {
                                (-a) as i64
                            },
                        ),
                    ),
                    Value::Float(f) => Ok(Value::Float(f_neg(f))),
                    _ => Err(Error::InvalidType(v.ty())),
                }
            } else {
                match v {
                    Value::Integer(a) => Ok(Value::Integer(!a)),
                    Value::Boolean(b) => Ok(Value::Boolean(!b)),
                    _ => Err(Error::InvalidType(v.ty())),
                }
            };
            match res {
                Ok(w) => (with_reg(s, r, Some(w)), Ok(Step::Next)),
                Err(e) => (s, Err(e)),
            }
        },
    }
}

/// One step of `cast` or `reinterpret`: a same-type request touches
/// nothing; otherwise the register is rewritten in place. Either way
/// success pushes the flag `true`.
pub open spec fn convert_step(s: MachineState, reinterpret: bool, t: Type, r: Register) -> (
    MachineState,
    Result<Step, Error>,
) {
    match reg_of(s, r) {
        None => (s, Err(Error::EmptyRegister(r))),
        Some(v) => {
            if v.ty() == t {
                (MachineState { stack: s.stack.push(Value::Boolean(true)), ..s }, Ok(Step::Next))
            } else {
                let res = if reinterpret {
                    reinterpret_value(v, t)
                } else {
                    cast_value(v, t)
                };
                match res {
                    Ok(w) => {
                        let s2 = with_reg(s, r, Some(w));
                        (
                            MachineState { stack: s2.stack.push(Value::Boolean(true)), ..s2 },
                            Ok(Step::Next),
                        )
                    },
                    Err(e) => (s, Err(e)),
                }
            }
        },
    }
}

/// The transition function of the machine: the state after the
/// instruction together with what the step reports, for every
/// instruction whose outcome is a function of the state. (`random` is
/// the one instruction left out; `execute` constrains it separately.)
pub open spec fn step_spec(s: MachineState, index: usize, instr: Instruction) -> (
    MachineState,
    Result<Step, Error>,
) {
    match instr {
        Instruction::PushInteger(i) => (
            MachineState { stack: s.stack.push(Value::Integer(i)), ..s },
            Ok(Step::Next),
        ),
        Instruction::PushFloat(f) => (
            MachineState { stack: s.stack.push(Value::Float(f)), ..s },
            Ok(Step::Next),
        ),
        Instruction::PushBoolean(b) => (
            MachineState { stack: s.stack.push(Value::Boolean(b)), ..s },
            Ok(Step::Next),
        ),
        Instruction::PushCharacter(c) => (
            MachineState { stack: s.stack.push(Value::Character(c)), ..s },
            Ok(Step::Next),
        ),
        Instruction::PushRegister(r) => match reg_of(s, r) {
            None => (s, Err(Error::EmptyRegister(r))),
            Some(v) => {
                let s2 = with_reg(s, r, None);
                (MachineState { stack: s2.stack.push(v), ..s2 }, Ok(Step::Next))
            },
        },
        Instruction::Pop(target) => {
            if s.stack.len() == 0 {
                (s, Err(Error::StackUnderflow))
            } else {
                let v = s.stack.last();
                let s2 = MachineState { stack: s.stack.drop_last(), ..s };
                match target {
                    None => (s2, Ok(Step::Next)),
                    Some(r) => (with_reg(s2, r, Some(v)), Ok(Step::Next)),
                }
            }
        },
        Instruction::Copy => match s.x {
            None => (s, Err(Error::EmptyRegister(Register::X))),
            Some(v) => (MachineState { y: Some(v), ..s }, Ok(Step::Next)),
        },
        Instruction::Swap => match (s.x, s.y) {
            (None, _) => (s, Err(Error::EmptyRegister(Register::X))),
            (_, None) => (s, Err(Error::EmptyRegister(Register::Y))),
            (Some(a), Some(b)) => (MachineState { x: Some(b), y: Some(a), ..s }, Ok(Step::Next)),
        },
        Instruction::Length(r) => (
            with_reg(s, r, Some(Value::Integer(s.stack.len() as i64))),
            Ok(Step::Next),
        ),
        Instruction::Jump(to) => (s, Ok(Step::Transfer(to))),
        Instruction::Branch(to) => {
            if s.stack.len() == 0 {
                (s, Err(Error::StackUnderflow))
            } else {
                let v = s.stack.last();
                let s2 = MachineState { stack: s.stack.drop_last(), ..s };
                match v {
                    Value::Boolean(true) => (s2, Ok(Step::Transfer(to))),
                    Value::Boolean(false) => (s2, Ok(Step::Next)),
                    _ => (s2, Err(Error::InvalidType(v.ty()))),
                }
            }
        },
        Instruction::Goto(r) => match reg_of(s, r) {
            None => (s, Err(Error::EmptyRegister(r))),
            Some(v) => {
                let s2 = with_reg(s, r, None);
                match v {
                    Value::Integer(i) => if i < 0 {
                        (s2, Ok(Step::Transfer(HALT_INDEX)))
                    } else {
                        (s2, Ok(Step::Transfer(i as usize)))
                    },
                    _ => (s2, Err(Error::InvalidType(v.ty()))),
                }
            },
        },
        Instruction::Call(to) => (
            MachineState { stack: s.stack.push(Value::Integer(index as i64)), ..s },
            Ok(Step::Transfer(to)),
        ),
        Instruction::Return => {
            if s.stack.len() == 0 {
                (s, Err(Error::StackUnderflow))
            } else {
                let v = s.stack.last();
                let s2 = MachineState { stack: s.stack.drop_last(), ..s };
                match v {
                    Value::Integer(i) => (s2, Ok(Step::Transfer(i as usize))),
                    _ => (s2, Err(Error::InvalidType(v.ty()))),
                }
            }
        },
        Instruction::Compare(_)
        | Instruction::Add
        | Instruction::Subtract
        | Instruction::Multiply
        | Instruction::Divide
        | Instruction::Modulo
        | Instruction::And
        | Instruction::Or
        | Instruction::Xor => binary_step(s, instr),
        Instruction::Negate(r) => unary_step(s, true, r),
        Instruction::Not(r) => unary_step(s, false, r),
        Instruction::Shift => shift_step(s, false),
        Instruction::Rotate => shift_step(s, true),
        Instruction::Cast(t, r) => convert_step(s, false, t, r),
        Instruction::Reinterpret(t, r) => convert_step(s, true, t, r),
        Instruction::Input(t, r) => (s, Ok(Step::Input(t, r))),
        Instruction::Read(t, r) => (s, Ok(Step::Read(t, r))),
        Instruction::Output(r) => match reg_of(s, r) {
            None => (s, Err(Error::EmptyRegister(r))),
            Some(v) => (with_reg(s, r, None), Ok(Step::Output(v))),
        },
        Instruction::Write(r) => match reg_of(s, r) {
            None => (s, Err(Error::EmptyRegister(r))),
            Some(v) => (with_reg(s, r, None), Ok(Step::Write(v))),
        },
        Instruction::Random(_, _) => arbitrary(),
        Instruction::Break => (s, Ok(Step::Transfer(HALT_INDEX))),
        Instruction::Drop(r) => (with_reg(s, r, None), Ok(Step::Next)),
    }
}

/// Whether a value is one that `random` may store for the requested
/// type: any value of that type, except that a float is confined to
/// the unit interval [0, 1).
pub open spec fn acceptable_random(t: Type, v: Value) -> bool {
    &&& v.ty() == t
    &&& match v {
        Value::Float(bits) => in_unit_interval(bits),
        _ => true,
    }
}

/// An instance of the machine: the registers, the stack, and the
/// randomness capability.
pub struct Interpreter {
    pub x: Option<Value>,
    pub y: Option<Value>,
    pub stack: Vec<Value>,
    pub rng: RngSource,
}

impl View for Interpreter {
    type V = MachineState;

    open spec fn view(&self) -> MachineState {
        MachineState { x: self.x, y: self.y, stack: self.stack@ }
    }
}

impl Default for Interpreter {
    /// A fresh machine: both registers empty, the stack empty.
    fn default() -> (r: Self)
        ensures
            r@ == (MachineState { x: None, y: None, stack: Seq::<Value>::empty() }),
    {
        let r = Interpreter { x: None, y: None, stack: Vec::new(), rng: fresh_rng() };
        proof {
            assert(r@.stack =~= Seq::<Value>::empty());
        }
        r
    }
}

impl Interpreter {
    /// Take the value out of a register, leaving it empty; an empty
    /// register is reported as such and nothing changes.
    fn take_reg(&mut self, r: Register) -> (res: Result<Value, Error>)
        ensures
            match reg_of(old(self)@, r) {
                None => res == Err::<Value, Error>(Error::EmptyRegister(r)) && final(self)@ == old(
                    self,
                )@,
                Some(v) => res == Ok::<Value, Error>(v) && final(self)@ == with_reg(
                    old(self)@,
                    r,
                    None,
                ),
            },
    {
        let taken = match r {
            Register::X => self.x.take(),
            Register::Y => self.y.take(),
        };
        match taken {
            None => Err(Error::EmptyRegister(r)),
            Some(v) => Ok(v),
        }
    }

    /// Replace the content of a register.
    fn set_reg(&mut self, r: Register, v: Option<Value>)
        ensures
            final(self)@ == with_reg(old(self)@, r, v),
    {
        match r {
            Register::X => self.x = v,
            Register::Y => self.y = v,
        }
    }

    /// Pop the top of the stack; an empty stack is reported as an
    /// underflow and nothing changes.
    fn pop_value(&mut self) -> (res: Result<Value, Error>)
        ensures
            match res {
                Ok(v) => old(self)@.stack.len() > 0 && v == old(self)@.stack.last() && final(self)@
                    == (MachineState { stack: old(self)@.stack.drop_last(), ..old(self)@ }),
                Err(e) => old(self)@.stack.len() == 0 && e == Error::StackUnderflow && final(self)@
                    == old(self)@,
            },
    {
        match self.stack.pop() {
            Some(v) => Ok(v),
            None => Err(Error::StackUnderflow),
        }
    }
}

/// An identical copy of a value.
fn dup_value(v: &Value) -> (r: Value)
    ensures
        r == *v,
{
    match v {
        Value::Integer(i) => Value::Integer(*i),
        Value::Float(f) => Value::Float(*f),
        Value::Boolean(b) => Value::Boolean(*b),
        Value::Character(c) => Value::Character(*c),
    }
}

/// The register a register is not.
pub open spec fn other_reg(r: Register) -> Register {
    match r {
        Register::X => Register::Y,
        Register::Y => Register::X,
    }
}

/// Whether the instruction consumes X and Y together and pushes one
/// result.
pub open spec fn is_binary(instr: Instruction) -> bool {
    match instr {
        Instruction::Compare(_)
        | Instruction::Add
        | Instruction::Subtract
        | Instruction::Multiply
        | Instruction::Divide
        | Instruction::Modulo
        | Instruction::And
        | Instruction::Or
        | Instruction::Xor => true,
        _ => false,
    }
}

/// Whether the instruction only moves values between the literals,
/// the registers and the stack.
pub open spec fn is_data(instr: Instruction) -> bool {
    match instr {
        Instruction::PushInteger(_)
        | Instruction::PushFloat(_)
        | Instruction::PushBoolean(_)
        | Instruction::PushCharacter(_)
        | Instruction::PushRegister(_)
        | Instruction::Pop(_)
        | Instruction::Copy
        | Instruction::Swap
        | Instruction::Length(_)
        | Instruction::Drop(_) => true,
        _ => false,
    }
}

/// Whether the instruction decides where control goes.
pub open spec fn is_control(instr: Instruction) -> bool {
    match instr {
        Instruction::Jump(_)
        | Instruction::Branch(_)
        | Instruction::Goto(_)
        | Instruction::Call(_)
        | Instruction::Return
        | Instruction::Break => true,
        _ => false,
    }
}

/// The magnitude of a signed 64-bit integer.
fn abs_exec(y: i64) -> (r: u64)
    ensures
        r == abs_i64(y),
{
    if y >= 0 {
        y as u64
    } else if y == i64::MIN {
        0x8000_0000_0000_0000
    } else {
        (-y) as u64
    }
}

/// A left rotation of a 64-bit pattern.
fn rotl_exec(x: u64, n: u32) -> (r: u64)
    ensures
        r == rotl64(x, n),
{
    let k = n % 64;
    if k == 0 {
        x
    } else {
        (x << k) | (x >> (64 - k))
    }
}

/// A right rotation of a 64-bit pattern.
fn rotr_exec(x: u64, n: u32) -> (r: u64)
    ensures
        r == rotr64(x, n),
{
    let k = n % 64;
    if k == 0 {
        x
    } else {
        (x >> k) | (x << (64 - k))
    }
}

/// The ordering of two signed 64-bit integers.
fn cmp_i64(a: i64, b: i64) -> (o: Ordering)
    ensures
        o == int_ordering(a as int, b as int),
{
    if a < b {
        Ordering::Less
    } else if a == b {
        Ordering::Equal
    } else {
        Ordering::Greater
    }
}

/// The IEEE-754 partial ordering of two float patterns.
fn float_order_exec(a: u64, b: u64) -> (o: Option<Ordering>)
    ensures
        o == float_ordering(a, b),
{
    if crate::float::float_is_nan(a) || crate::float::float_is_nan(b) {
        None
    } else if float_lt(a, b) {
        Some(Ordering::Less)
    } else if float_eq(a, b) {
        Some(Ordering::Equal)
    } else {
        Some(Ordering::Greater)
    }
}

/// Whether two values are unequal.
fn values_unequal_exec(l: &Value, r: &Value) -> (b: bool)
    ensures
        b == values_unequal(*l, *r),
{
    match (l, r) {
        (Value::Integer(a), Value::Integer(b)) => *a != *b,
        (Value::Float(a), Value::Float(b)) => !float_eq(*a, *b),
        (Value::Boolean(a), Value::Boolean(b)) => *a != *b,
        (Value::Character(a), Value::Character(b)) => *a != *b,
        _ => true,
    }
}

/// The ordering of two values, or the error for an unordered pair.
fn order_values_exec(l: &Value, r: &Value) -> (res: Result<Option<Ordering>, Error>)
    ensures
        res == order_values(*l, *r),
{
    match (l, r) {
        (Value::Integer(a), Value::Integer(b)) => Ok(Some(cmp_i64(*a, *b))),
        (Value::Boolean(a), Value::Boolean(b)) => Ok(
            Some(
                if *a == *b {
                    Ordering::Equal
                } else if *b {
                    Ordering::Less
                } else {
                    Ordering::Greater
                },
            ),
        ),
        (Value::Character(a), Value::Character(b)) => {
            if *a < *b {
                Ok(Some(Ordering::Less))
            } else if *a == *b {
                Ok(Some(Ordering::Equal))
            } else {
                Ok(Some(Ordering::Greater))
            }
        },
        (Value::Float(a), Value::Float(b)) => Ok(float_order_exec(*a, *b)),
        (Value::Integer(a), Value::Float(b)) => Ok(float_order_exec(float_of_int(*a), *b)),
        (Value::Float(a), Value::Integer(b)) => Ok(float_order_exec(*a, float_of_int(*b))),
        _ => Err(Error::MismatchedTypes(l.get_type(), r.get_type())),
    }
}

/// The boolean a `compare` pushes, or its error.
fn compute_compare(kind: Option<Ordering>, l: &Value, r: &Value) -> (res: Result<Value, Error>)
    ensures
        res == compare_value(kind, *l, *r),
{
    match kind {
        None => Ok(Value::Boolean(values_unequal_exec(l, r))),
        Some(ord) => {
            let po = match order_values_exec(l, r) {
                Ok(po) => po,
                Err(e) => { return Err(e); },
            };
            let hit = match (po, ord) {
                (Some(Ordering::Less), Ordering::Less) => true,
                (Some(Ordering::Equal), Ordering::Equal) => true,
                (Some(Ordering::Greater), Ordering::Greater) => true,
                _ => false,
            };
            Ok(Value::Boolean(hit))
        },
    }
}

/// The result a two-operand instruction pushes, or its error.
fn compute_binary(instr: Instruction, l: Value, r: Value) -> (res: Result<Value, Error>)
    requires
        is_binary(instr),
    ensures
        res == binary_value(instr, l, r),
{
    match instr {
        Instruction::Compare(kind) => compute_compare(kind, &l, &r),
        Instruction::And | Instruction::Or | Instruction::Xor => match (l, r) {
            (Value::Integer(a), Value::Integer(b)) => Ok(
                Value::Integer(
                    match instr {
                        Instruction::And => a & b,
                        Instruction::Or => a | b,
                        _ => a ^ b,
                    },
                ),
            ),
            (Value::Boolean(a), Value::Boolean(b)) => Ok(
                Value::Boolean(
                    match instr {
                        Instruction::And => a && b,
                        Instruction::Or => a || b,
                        _ => a != b,
                    },
                ),
            ),
            (l2, r2) => Err(Error::MismatchedTypes(l2.get_type(), r2.get_type())),
        },
        _ => match (l, r) {
            (Value::Integer(a), Value::Integer(b)) => match instr {
                Instruction::Add => Ok(Value::Integer(a.wrapping_add(b))),
                Instruction::Subtract => Ok(Value::Integer(a.wrapping_sub(b))),
                Instruction::Multiply => Ok(Value::Integer(a.wrapping_mul(b))),
                Instruction::Divide => if b == 0 {
                    Err(Error::DivideByZero)
                } else {
                    Ok(
                        Value::Integer(
                            match a.checked_div(b) {
                                Some(q) => q,
                                None => i64::MIN,
                            },
                        ),
                    )
                },
                _ => if b == 0 {
                    Err(Error::DivideByZero)
                } else {
                    Ok(
                        Value::Integer(
                            match a.checked_rem(b) {
                                Some(m) => m,
                                None => 0,
                            },
                        ),
                    )
                },
            },
            (Value::Float(a), Value::Float(b)) => match instr {
                Instruction::Add => Ok(Value::Float(float_add(a, b))),
                Instruction::Subtract => Ok(Value::Float(float_sub(a, b))),
                Instruction::Multiply => Ok(Value::Float(float_mul(a, b))),
                Instruction::Divide => Ok(Value::Float(float_div(a, b))),
                _ => Ok(Value::Float(float_rem(a, b))),
            },
            (l2, r2) => Err(Error::MismatchedTypes(l2.get_type(), r2.get_type())),
        },
    }
}

/// The converted value of a `cast` between distinct types.
fn cast_exec(v: &Value, t: Type) -> (res: Result<Value, Error>)
    ensures
        res == cast_value(*v, t),
{
    match (v, t) {
        (Value::Boolean(b), Type::Integer) => Ok(
            Value::Integer(
                if *b {
                    1
                } else {
                    0
                },
            ),
        ),
        (Value::Boolean(b), Type::Character) => Ok(
            Value::Character(
                if *b {
                    1
                } else {
                    0
                },
            ),
        ),
        (Value::Integer(i), Type::Boolean) => Ok(Value::Boolean(*i != 0)),
        (Value::Integer(i), Type::Float) => Ok(Value::Float(float_of_int(*i))),
        (Value::Integer(i), Type::Character) => Ok(
            Value::Character(#[verifier::truncate] (*i as u8)),
        ),
        (Value::Float(f), Type::Integer) => Ok(Value::Integer(float_trunc_to_int(*f))),
        _ => Err(Error::MismatchedTypes(t, v.get_type())),
    }
}

/// The reinterpreted value of a `reinterpret` between distinct types.
fn reinterpret_exec(v: &Value, t: Type) -> (res: Result<Value, Error>)
    ensures
        res == reinterpret_value(*v, t),
{
    match (v, t) {
        (Value::Boolean(b), Type::Integer) => Ok(
            Value::Integer(
                if *b {
                    1
                } else {
                    0
                },
            ),
        ),
        (Value::Boolean(b), Type::Character) => Ok(
            Value::Character(
                if *b {
                    1
                } else {
                    0
                },
            ),
        ),
        (Value::Integer(i), Type::Float) => Ok(Value::Float(#[verifier::truncate] (*i as u64))),
        (Value::Float(f), Type::Integer) => Ok(Value::Integer(#[verifier::truncate] (*f as i64))),
        (Value::Character(c), Type::Integer) => Ok(Value::Integer(*c as i64)),
        _ => Err(Error::MismatchedTypes(t, v.get_type())),
    }
}

impl Interpreter {
    /// One step of a two-operand instruction.
    fn exec_binary(&mut self, instr: Instruction) -> (result: Result<Step, Error>)
        requires
            is_binary(instr),
        ensures
            ({
                let pr = binary_step(old(self)@, instr);
                final(self)@ == pr.0 && result == pr.1
            }),
    {
        let l = match self.take_reg(Register::X) {
            Ok(v) => v,
            Err(e) => { return Err(e); },
        };
        let r = match self.take_reg(Register::Y) {
            Ok(v) => v,
            Err(e) => { return Err(e); },
        };
        let v = match compute_binary(instr, l, r) {
            Ok(v) => v,
            Err(e) => { return Err(e); },
        };
        self.stack.push(v);
        Ok(Step::Next)
    }

    /// One step of `shift` or `rotate`.
    fn exec_shift(&mut self, rotate: bool) -> (result: Result<Step, Error>)
        ensures
            ({
                let pr = shift_step(old(self)@, rotate);
                final(self)@ == pr.0 && result == pr.1
            }),
    {
        let lv = match self.take_reg(Register::X) {
            Ok(v) => v,
            Err(e) => { return Err(e); },
        };
        let a = match lv {
            Value::Integer(a) => a,
            other => { return Err(Error::InvalidType(other.get_type())); },
        };
        let rv = match self.take_reg(Register::Y) {
            Ok(v) => v,
            Err(e) => { return Err(e); },
        };
        let b = match rv {
            Value::Integer(b) => b,
            other => { return Err(Error::InvalidType(other.get_type())); },
        };
        let n: u32 = #[verifier::truncate] (abs_exec(b) as u32);
        let res: i64 = if rotate {
            if b < 0 {
                #[verifier::truncate] (rotl_exec(#[verifier::truncate] (a as u64), n) as i64)
            } else {
                #[verifier::truncate] (rotr_exec(#[verifier::truncate] (a as u64), n) as i64)
            }
        } else {
            if b < 0 {
                a.wrapping_shl(n)
            } else {
                #[verifier::truncate] ((#[verifier::truncate] (a as u64)).wrapping_shr(n) as i64)
            }
        };
        self.stack.push(Value::Integer(res));
        Ok(Step::Next)
    }

    /// One step of an in-place unary instruction.
    fn exec_unary(&mut self, negate: bool, r: Register) -> (result: Result<Step, Error>)
        ensures
            ({
                let pr = unary_step(old(self)@, negate, r);
                final(self)@ == pr.0 && result == pr.1
            }),
    {
        let v = match self.take_reg(r) {
            Ok(v) => v,
            Err(e) => { return Err(e); },
        };
        match (negate, v) {
            (true, Value::Integer(a)) => {
                let w = if a == i64::MIN {
                    i64::MIN
                } else {
                    -a
                };
                self.set_reg(r, Some(Value::Integer(w)));
                Ok(Step::Next)
            },
            (true, Value::Float(f)) => {
                self.set_reg(r, Some(Value::Float(float_neg(f))));
                Ok(Step::Next)
            },
            (false, Value::Integer(a)) => {
                self.set_reg(r, Some(Value::Integer(!a)));
                Ok(Step::Next)
            },
            (false, Value::Boolean(b)) => {
                self.set_reg(r, Some(Value::Boolean(!b)));
                Ok(Step::Next)
            },
            (_, other) => {
                let t = other.get_type();
                self.set_reg(r, Some(other));
                Err(Error::InvalidType(t))
            },
        }
    }

    /// One step of `cast` or `reinterpret`.
    fn exec_convert(&mut self, reinterpret: bool, t: Type, r: Register) -> (result: Result<
        Step,
        Error,
    >)
        ensures
            ({
                let pr = convert_step(old(self)@, reinterpret, t, r);
                final(self)@ == pr.0 && result == pr.1
            }),
    {
        let v = match self.take_reg(r) {
            Ok(v) => v,
            Err(e) => { return Err(e); },
        };
        let vt = v.get_type();
        if vt == t {
            self.set_reg(r, Some(v));
            self.stack.push(Value::Boolean(true));
            return Ok(Step::Next);
        }
        let conv = if reinterpret {
            reinterpret_exec(&v, t)
        } else {
            cast_exec(&v, t)
        };
        match conv {
            Ok(w) => {
                self.set_reg(r, Some(w));
                self.stack.push(Value::Boolean(true));
                Ok(Step::Next)
            },
            Err(e) => {
                self.set_reg(r, Some(v));
                Err(e)
            },
        }
    }

    /// One step of a data-movement instruction.
    fn exec_data(&mut self, instr: Instruction) -> (result: Result<Step, Error>)
        requires
            is_data(instr),
            old(self)@.stack.len() <= i64::MAX,
        ensures
            ({
                let pr = step_spec(old(self)@, 0, instr);
                final(self)@ == pr.0 && result == pr.1
            }),
    {
        match instr {
            Instruction::PushInteger(i) => {
                self.stack.push(Value::Integer(i));
                Ok(Step::Next)
            },
            Instruction::PushFloat(f) => {
                self.stack.push(Value::Float(f));
                Ok(Step::Next)
            },
            Instruction::PushBoolean(b) => {
                self.stack.push(Value::Boolean(b));
                Ok(Step::Next)
            },
            Instruction::PushCharacter(c) => {
                self.stack.push(Value::Character(c));
                Ok(Step::Next)
            },
            Instruction::PushRegister(r) => {
                let v = match self.take_reg(r) {
                    Ok(v) => v,
                    Err(e) => { return Err(e); },
                };
                self.stack.push(v);
                Ok(Step::Next)
            },
            Instruction::Pop(target) => {
                let v = match self.pop_value() {
                    Ok(v) => v,
                    Err(e) => { return Err(e); },
                };
                match target {
                    None => Ok(Step::Next),
                    Some(r) => {
                        self.set_reg(r, Some(v));
                        Ok(Step::Next)
                    },
                }
            },
            Instruction::Copy => match &self.x {
                None => Err(Error::EmptyRegister(Register::X)),
                Some(v) => {
                    let w = dup_value(v);
                    self.y = Some(w);
                    Ok(Step::Next)
                },
            },
            Instruction::Swap => {
                if self.x.is_none() {
                    return Err(Error::EmptyRegister(Register::X));
                }
                if self.y.is_none() {
                    return Err(Error::EmptyRegister(Register::Y));
                }
                core::mem::swap(&mut self.x, &mut self.y);
                Ok(Step::Next)
            },
            Instruction::Length(r) => {
                let n = self.stack.len();
                self.set_reg(r, Some(Value::Integer(n as i64)));
                Ok(Step::Next)
            },
            Instruction::Drop(r) => {
                self.set_reg(r, None);
                Ok(Step::Next)
            },
            _ => {
                proof {
                    assert(false);
                }
                Err(Error::InvalidInstruction)
            },
        }
    }

    /// One step of a control-flow instruction.
    fn exec_control(&mut self, index: usize, instr: Instruction) -> (result: Result<Step, Error>)
        requires
            is_control(instr),
            old(self)@.stack.len() <= i64::MAX,
            index <= i64::MAX,
        ensures
            ({
                let pr = step_spec(old(self)@, index, instr);
                final(self)@ == pr.0 && result == pr.1
            }),
    {
        match instr {
            Instruction::Jump(to) => Ok(Step::Transfer(to)),
            Instruction::Branch(to) => {
                let v = match self.pop_value() {
                    Ok(v) => v,
                    Err(e) => { return Err(e); },
                };
                match v {
                    Value::Boolean(true) => Ok(Step::Transfer(to)),
                    Value::Boolean(false) => Ok(Step::Next),
                    other => Err(Error::InvalidType(other.get_type())),
                }
            },
            Instruction::Goto(r) => {
                let v = match self.take_reg(r) {
                    Ok(v) => v,
                    Err(e) => { return Err(e); },
                };
                match v {
                    Value::Integer(i) => if i < 0 {
                        Ok(Step::Transfer(HALT_INDEX))
                    } else {
                        Ok(Step::Transfer(#[verifier::truncate] (i as usize)))
                    },
                    other => Err(Error::InvalidType(other.get_type())),
                }
            },
            Instruction::Call(to) => {
                self.stack.push(Value::Integer(index as i64));
                Ok(Step::Transfer(to))
            },
            Instruction::Return => {
                let v = match self.pop_value() {
                    Ok(v) => v,
                    Err(e) => { return Err(e); },
                };
                match v {
                    Value::Integer(i) => Ok(
                        Step::Transfer(#[verifier::truncate] (i as usize)),
                    ),
                    other => Err(Error::InvalidType(other.get_type())),
                }
            },
            Instruction::Break => Ok(Step::Transfer(HALT_INDEX)),
            _ => {
                proof {
                    assert(false);
                }
                Err(Error::InvalidInstruction)
            },
        }
    }

    /// Execute one instruction against the machine state, given the
    /// index the instruction stands at.
    ///
    /// The result reports how the driver continues: the next
    /// instruction in sequence, a transfer to an absolute index
    /// (`HALT_INDEX` meaning termination), or the stream work the
    /// step needs; an error aborts the run. Every instruction other
    /// than `random` changes the state and reports exactly what the
    /// transition function `step_spec` says; `random` stores some
    /// acceptable value of the requested type and goes on.
    #[verifier::rlimit(100)]
    pub fn execute(&mut self, index: usize, instr: Instruction) -> (result: Result<Step, Error>)
        requires
            old(self)@.stack.len() <= i64::MAX,
            index <= i64::MAX,
        ensures
            !(instr matches Instruction::Random(_, _)) ==> ({
                let pr = step_spec(old(self)@, index, instr);
                final(self)@ == pr.0 && result == pr.1
            }),
            (instr matches Instruction::Random(t, r) ==> {
                &&& result == Ok::<Step, Error>(Step::Next)
                &&& final(self)@.stack == old(self)@.stack
                &&& reg_of(final(self)@, other_reg(r)) == reg_of(old(self)@, other_reg(r))
                &&& match reg_of(final(self)@, r) {
                    Some(v) => acceptable_random(t, v),
                    None => false,
                }
            }),
    {
        match instr {
            Instruction::PushInteger(_)
            | Instruction::PushFloat(_)
            | Instruction::PushBoolean(_)
            | Instruction::PushCharacter(_)
            | Instruction::PushRegister(_)
            | Instruction::Pop(_)
            | Instruction::Copy
            | Instruction::Swap
            | Instruction::Length(_)
            | Instruction::Drop(_) => {
                let result = self.exec_data(instr);
                proof {
                    assert(step_spec(old(self)@, 0, instr) == step_spec(old(self)@, index, instr));
                }
                result
            },
            Instruction::Jump(_)
            | Instruction::Branch(_)
            | Instruction::Goto(_)
            | Instruction::Call(_)
            | Instruction::Return
            | Instruction::Break => self.exec_control(index, instr),
            Instruction::Compare(_)
            | Instruction::Add
            | Instruction::Subtract
            | Instruction::Multiply
            | Instruction::Divide
            | Instruction::Modulo
            | Instruction::And
            | Instruction::Or
            | Instruction::Xor => self.exec_binary(instr),
            Instruction::Negate(r) => self.exec_unary(true, r),
            Instruction::Not(r) => self.exec_unary(false, r),
            Instruction::Shift => self.exec_shift(false),
            Instruction::Rotate => self.exec_shift(true),
            Instruction::Cast(t, r) => self.exec_convert(false, t, r),
            Instruction::Reinterpret(t, r) => self.exec_convert(true, t, r),
            Instruction::Input(t, r) => Ok(Step::Input(t, r)),
            Instruction::Read(t, r) => Ok(Step::Read(t, r)),
            Instruction::Output(r) => match self.take_reg(r) {
                Ok(v) => Ok(Step::Output(v)),
                Err(e) => Err(e),
            },
            Instruction::Write(r) => match self.take_reg(r) {
                Ok(v) => Ok(Step::Write(v)),
                Err(e) => Err(e),
            },
            Instruction::Random(t, r) => {
                let v = match t {
                    Type::Integer => Value::Integer(random_i64(&mut self.rng)),
                    Type::Float => {
                        let m = random_u64(&mut self.rng);
                        proof {
                            assert(m >> 11u64 < 0x0020_0000_0000_0000) by (bit_vector);
                        }
                        Value::Float(unit_interval_bits(m >> 11))
                    },
                    Type::Boolean => Value::Boolean(random_bool(&mut self.rng)),
                    Type::Character => Value::Character(random_u8(&mut self.rng)),
                };
                self.set_reg(r, Some(v));
                Ok(Step::Next)
            },
        }
    }
}

} // verus!
