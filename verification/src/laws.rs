//! The machine's laws: properties of the parser and the engine that
//! hold for every state and every input, proved once and for all
//! against the transition function.

use vstd::prelude::*;
use crate::structures::Error;
use crate::structures::Instruction;
use crate::structures::Register;
use crate::structures::Step;
use crate::structures::Value;
use crate::engine::reg_of;
use crate::engine::step_spec;
use crate::engine::values_unequal;
use crate::engine::MachineState;
use crate::float::f_div;
use crate::float::f_rem;
use crate::parser::label_pass;
use crate::parser::lines;
use crate::parser::program;

verus! {

/// Parsing is deterministic: identical program text always yields the
/// identical label resolution and the identical instruction sequence,
/// or the identical defect.
pub proof fn lemma_parsing_deterministic(
    a: Seq<u8>,
    b: Seq<u8>,
    r1: Result<Seq<Instruction>, (int, Error)>,
    r2: Result<Seq<Instruction>, (int, Error)>,
)
    requires
        a == b,
        r1 == program(a),
        r2 == program(b),
    ensures
        r1 == r2,
        label_pass(lines(a)) == label_pass(lines(b)),
{
}

/// Integer arithmetic wraps and never faults: with integers in both
/// registers, `add`, `subtract` and `multiply` always succeed and
/// push the two's-complement result, consuming both registers.
pub proof fn lemma_integer_arithmetic_never_faults(
    s: MachineState,
    a: i64,
    b: i64,
    index: usize,
    instr: Instruction,
)
    requires
        s.x == Some(Value::Integer(a)),
        s.y == Some(Value::Integer(b)),
        instr is Add || instr is Subtract || instr is Multiply,
    ensures
        ({
            let pr = step_spec(s, index, instr);
            &&& pr.1 == Ok::<Step, Error>(Step::Next)
            &&& pr.0.x is None
            &&& pr.0.y is None
            &&& pr.0.stack == s.stack.push(
                Value::Integer(
                    match instr {
                        Instruction::Add => vstd::wrapping::i64_specs::wrapping_add(a, b),
                        Instruction::Subtract => vstd::wrapping::i64_specs::wrapping_sub(a, b),
                        _ => vstd::wrapping::i64_specs::wrapping_mul(a, b),
                    },
                ),
            )
        }),
{
}

/// `divide` and `modulo` with an integer right-hand operand of zero
/// always report division by zero: both registers are consumed, the
/// stack is untouched, and nothing faults.
pub proof fn lemma_integer_divide_by_zero(s: MachineState, a: i64, index: usize)
    requires
        s.x == Some(Value::Integer(a)),
        s.y == Some(Value::Integer(0i64)),
    ensures
        ({
            let pr = step_spec(s, index, Instruction::Divide);
            &&& pr.1 == Err::<Step, Error>(Error::DivideByZero)
            &&& pr.0.x is None
            &&& pr.0.y is None
            &&& pr.0.stack == s.stack
        }),
        ({
            let pr = step_spec(s, index, Instruction::Modulo);
            &&& pr.1 == Err::<Step, Error>(Error::DivideByZero)
            &&& pr.0.x is None
            &&& pr.0.y is None
            &&& pr.0.stack == s.stack
        }),
{
}

/// Float division and remainder never error, a zero divisor
/// included: the IEEE-754 result, whatever it is, is pushed.
pub proof fn lemma_float_division_never_errors(s: MachineState, a: u64, b: u64, index: usize)
    requires
        s.x == Some(Value::Float(a)),
        s.y == Some(Value::Float(b)),
    ensures
        ({
            let pr = step_spec(s, index, Instruction::Divide);
            pr.1 == Ok::<Step, Error>(Step::Next) && pr.0.stack == s.stack.push(
                Value::Float(f_div(a, b)),
            )
        }),
        ({
            let pr = step_spec(s, index, Instruction::Modulo);
            pr.1 == Ok::<Step, Error>(Step::Next) && pr.0.stack == s.stack.push(
                Value::Float(f_rem(a, b)),
            )
        }),
{
}

/// `cast` and `reinterpret` to the value's own type are no-ops: the
/// value is untouched, and the success flag `true` is pushed.
pub proof fn lemma_convert_same_type_is_noop(
    s: MachineState,
    v: Value,
    r: Register,
    index: usize,
    reinterpret: bool,
)
    requires
        reg_of(s, r) == Some(v),
    ensures
        ({
            let instr = if reinterpret {
                Instruction::Reinterpret(v.ty(), r)
            } else {
                Instruction::Cast(v.ty(), r)
            };
            let pr = step_spec(s, index, instr);
            &&& pr.1 == Ok::<Step, Error>(Step::Next)
            &&& pr.0.x == s.x
            &&& pr.0.y == s.y
            &&& pr.0.stack == s.stack.push(Value::Boolean(true))
        }),
{
}

/// `compare unequal` never errors, whatever the two operand types:
/// both registers are consumed and the inequality verdict is pushed,
/// and operands of differing types are always unequal.
pub proof fn lemma_compare_unequal_never_errors(s: MachineState, l: Value, r: Value, index: usize)
    requires
        s.x == Some(l),
        s.y == Some(r),
    ensures
        ({
            let pr = step_spec(s, index, Instruction::Compare(None));
            &&& pr.1 == Ok::<Step, Error>(Step::Next)
            &&& pr.0.x is None
            &&& pr.0.y is None
            &&& pr.0.stack == s.stack.push(Value::Boolean(values_unequal(l, r)))
        }),
        l.ty() != r.ty() ==> values_unequal(l, r),
{
}

/// `push register` on an empty register reports the empty register
/// and changes nothing: the stack and both registers stay as they
/// were.
pub proof fn lemma_push_empty_register(s: MachineState, r: Register, index: usize)
    requires
        reg_of(s, r) is None,
    ensures
        ({
            let pr = step_spec(s, index, Instruction::PushRegister(r));
            pr.1 == Err::<Step, Error>(Error::EmptyRegister(r)) && pr.0 == s
        }),
{
}

/// The sign of Y selects the shift direction: for any nonnegative X
/// below 2^62, a shift by -1 doubles it and a shift by 1 halves it.
/// In particular one shifted left by one is two, and one shifted
/// right by one is zero.
pub proof fn lemma_shift_direction(s: MachineState, x: i64, index: usize)
    requires
        s.x == Some(Value::Integer(x)),
        0 <= x < 0x4000_0000_0000_0000,
    ensures
        s.y == Some(Value::Integer(-1i64)) ==> step_spec(s, index, Instruction::Shift).0.stack
            == s.stack.push(Value::Integer((2 * x) as i64)),
        s.y == Some(Value::Integer(1i64)) ==> step_spec(s, index, Instruction::Shift).0.stack
            == s.stack.push(Value::Integer((x / 2) as i64)),
{
    assert(x << (1u32 % 64) == (2 * x) as i64) by (bit_vector)
        requires
            0 <= x < 0x4000_0000_0000_0000,
    ;
    assert((x as u64) >> (1u32 % 64) == ((x / 2) as u64) && ((x / 2) as u64) as i64 == (x
        / 2) as i64) by (bit_vector)
        requires
            0 <= x < 0x4000_0000_0000_0000,
    ;
}

} // verus!

