//! What the machine's values look like on a stream: the canonical
//! text rendering, the fixed-width big-endian binary encoding, and the
//! parsing of typed input lines.

use vstd::prelude::*;
use crate::structures::Type;
use crate::structures::Value;
use crate::float::float_literal;
use crate::float::parse_float_literal;
use crate::text::bool_literal;
use crate::text::int_literal;
use crate::text::int_text;
use crate::text::parse_bool_literal;
use crate::text::parse_int_literal;
use crate::text::render_int;
use crate::text::trim;
use crate::text::trim_bytes;

verus! {

/// The lower-case hex digit of a value below sixteen.
pub open spec fn hex_digit(n: u8) -> u8 {
    if n < 10 {
        (48 + n) as u8
    } else {
        (87 + n) as u8
    }
}

/// The escaped text of one byte: the common escapes and printable
/// ASCII stand for themselves, everything else is a `\xNN` hex escape.
pub open spec fn escape_byte(c: u8) -> Seq<u8> {
    if c == 9 {
        seq![92u8, 116u8]
    } else if c == 13 {
        seq![92u8, 114u8]
    } else if c == 10 {
        seq![92u8, 110u8]
    } else if c == 92 {
        seq![92u8, 92u8]
    } else if c == 39 {
        seq![92u8, 39u8]
    } else if c == 34 {
        seq![92u8, 34u8]
    } else if 32 <= c && c <= 126 {
        seq![c]
    } else {
        seq![92u8, 120u8, hex_digit(c / 16), hex_digit(c % 16)]
    }
}

/// The canonical text of a value: decimal for an integer, `true` or
/// `false` for a boolean, the escaped byte for a character. (A float
/// has no canonical text here; its rendering is the driver's.)
pub open spec fn value_text(v: Value) -> Seq<u8> {
    match v {
        Value::Integer(i) => int_text(i as int),
        Value::Boolean(b) => if b {
            seq![116u8, 114u8, 117u8, 101u8]
        } else {
            seq![102u8, 97u8, 108u8, 115u8, 101u8]
        },
        Value::Character(c) => escape_byte(c),
        Value::Float(_) => arbitrary(),
    }
}

/// Render one byte, escaping what is not printable ASCII.
pub fn render_char(c: u8) -> (out: Vec<u8>)
    ensures
        out@ == escape_byte(c),
{
    let mut out: Vec<u8> = Vec::new();
    if c == 9 {
        out.push(92);
        out.push(116);
        proof {
            assert(out@ =~= seq![92u8, 116u8]);
        }
    } else if c == 13 {
        out.push(92);
        out.push(114);
        proof {
            assert(out@ =~= seq![92u8, 114u8]);
        }
    } else if c == 10 {
        out.push(92);
        out.push(110);
        proof {
            assert(out@ =~= seq![92u8, 110u8]);
        }
    } else if c == 92 {
        out.push(92);
        out.push(92);
        proof {
            assert(out@ =~= seq![92u8, 92u8]);
        }
    } else if c == 39 {
        out.push(92);
        out.push(39);
        proof {
            assert(out@ =~= seq![92u8, 39u8]);
        }
    } else if c == 34 {
        out.push(92);
        out.push(34);
        proof {
            assert(out@ =~= seq![92u8, 34u8]);
        }
    } else if 32 <= c && c <= 126 {
        out.push(c);
        proof {
            assert(out@ =~= seq![c]);
        }
    } else {
        out.push(92);
        out.push(120);
        let hi = c / 16;
        let lo = c % 16;
        out.push(
            if hi < 10 {
                48 + hi
            } else {
                87 + hi
            },
        );
        out.push(
            if lo < 10 {
                48 + lo
            } else {
                87 + lo
            },
        );
        proof {
            assert(out@ =~= seq![92u8, 120u8, hex_digit(c / 16), hex_digit(c % 16)]);
        }
    }
    out
}

/// Render a value in its canonical text. A float pattern has no
/// canonical text in the library, so it is left to the driver.
pub fn render_value(v: &Value) -> (out: Vec<u8>)
    requires
        !(v is Float),
    ensures
        out@ == value_text(*v),
{
    match v {
        Value::Integer(i) => render_int(*i),
        Value::Boolean(b) => {
            let mut out: Vec<u8> = Vec::new();
            if *b {
                out.push(116);
                out.push(114);
                out.push(117);
                out.push(101);
                proof {
                    assert(out@ =~= seq![116u8, 114u8, 117u8, 101u8]);
                }
            } else {
                out.push(102);
                out.push(97);
                out.push(108);
                out.push(115);
                out.push(101);
                proof {
                    assert(out@ =~= seq![102u8, 97u8, 108u8, 115u8, 101u8]);
                }
            }
            out
        },
        Value::Character(c) => render_char(*c),
        Value::Float(_) => {
            proof {
                assert(false);
            }
            Vec::new()
        },
    }
}

/// The eight bytes of a 64-bit pattern, most significant first.
pub open spec fn be_bytes(x: u64) -> Seq<u8> {
    seq![
        ((x >> 56) & 0xFF) as u8,
        ((x >> 48) & 0xFF) as u8,
        ((x >> 40) & 0xFF) as u8,
        ((x >> 32) & 0xFF) as u8,
        ((x >> 24) & 0xFF) as u8,
        ((x >> 16) & 0xFF) as u8,
        ((x >> 8) & 0xFF) as u8,
        (x & 0xFF) as u8,
    ]
}

/// The 64-bit pattern read from eight bytes, most significant first.
pub open spec fn u64_of_be(s: Seq<u8>) -> u64
    recommends
        s.len() == 8,
{
    ((s[0] as u64) << 56) | ((s[1] as u64) << 48) | ((s[2] as u64) << 40) | ((s[3] as u64) << 32)
        | ((s[4] as u64) << 24) | ((s[5] as u64) << 16) | ((s[6] as u64) << 8) | (s[7] as u64)
}

/// The number of bytes in the fixed-width binary encoding of a value
/// of the type: eight for the 64-bit types, one for the others.
pub open spec fn width_of(t: Type) -> usize {
    match t {
        Type::Integer => 8,
        Type::Float => 8,
        Type::Boolean => 1,
        Type::Character => 1,
    }
}

/// The fixed-width binary encoding of a value: integers and floats as
/// eight big-endian bytes, a boolean as one byte holding zero or one,
/// a character as its byte.
pub open spec fn encoded(v: Value) -> Seq<u8> {
    match v {
        Value::Integer(i) => be_bytes(i as u64),
        Value::Float(f) => be_bytes(f),
        Value::Boolean(b) => seq![
            if b {
                1u8
            } else {
                0u8
            },
        ],
        Value::Character(c) => seq![c],
    }
}

/// The value a fixed-width binary encoding decodes to: any nonzero
/// byte reads as the boolean true.
pub open spec fn decoded(t: Type, s: Seq<u8>) -> Value
    recommends
        s.len() == width_of(t),
{
    match t {
        Type::Integer => Value::Integer(u64_of_be(s) as i64),
        Type::Float => Value::Float(u64_of_be(s)),
        Type::Boolean => Value::Boolean(s[0] != 0),
        Type::Character => Value::Character(s[0]),
    }
}

/// The number of bytes a `read` of the type consumes.
pub fn read_width(t: Type) -> (w: usize)
    ensures
        w == width_of(t),
{
    match t {
        Type::Integer => 8,
        Type::Float => 8,
        Type::Boolean => 1,
        Type::Character => 1,
    }
}

/// The eight big-endian bytes of a 64-bit pattern.
fn be_bytes_exec(x: u64) -> (out: Vec<u8>)
    ensures
        out@ == be_bytes(x),
{
    let mut out: Vec<u8> = Vec::new();
    out.push(((x >> 56) & 0xFF) as u8);
    out.push(((x >> 48) & 0xFF) as u8);
    out.push(((x >> 40) & 0xFF) as u8);
    out.push(((x >> 32) & 0xFF) as u8);
    out.push(((x >> 24) & 0xFF) as u8);
    out.push(((x >> 16) & 0xFF) as u8);
    out.push(((x >> 8) & 0xFF) as u8);
    out.push((x & 0xFF) as u8);
    proof {
        assert(out@ =~= be_bytes(x));
    }
    out
}

/// Encode a value in its fixed-width binary form, as `write` emits it.
pub fn encode_value(v: &Value) -> (out: Vec<u8>)
    ensures
        out@ == encoded(*v),
{
    match v {
        Value::Integer(i) => be_bytes_exec(#[verifier::truncate] (*i as u64)),
        Value::Float(f) => be_bytes_exec(*f),
        Value::Boolean(b) => {
            let mut out: Vec<u8> = Vec::new();
            out.push(
                if *b {
                    1
                } else {
                    0
                },
            );
            proof {
                assert(out@ =~= encoded(*v));
            }
            out
        },
        Value::Character(c) => {
            let mut out: Vec<u8> = Vec::new();
            out.push(*c);
            proof {
                assert(out@ =~= encoded(*v));
            }
            out
        },
    }
}

/// Decode a fixed-width binary encoding, as `read` consumes it.
pub fn decode_value(t: Type, s: &[u8]) -> (v: Value)
    requires
        s@.len() == width_of(t),
    ensures
        v == decoded(t, s@),
{
    match t {
        Type::Integer => {
            let x: u64 = ((s[0] as u64) << 56) | ((s[1] as u64) << 48) | ((s[2] as u64) << 40) | (
            (s[3] as u64) << 32) | ((s[4] as u64) << 24) | ((s[5] as u64) << 16) | ((s[6] as u64)
                << 8) | (s[7] as u64);
            Value::Integer(#[verifier::truncate] (x as i64))
        },
        Type::Float => {
            let x: u64 = ((s[0] as u64) << 56) | ((s[1] as u64) << 48) | ((s[2] as u64) << 40) | (
            (s[3] as u64) << 32) | ((s[4] as u64) << 24) | ((s[5] as u64) << 16) | ((s[6] as u64)
                << 8) | (s[7] as u64);
            Value::Float(x)
        },
        Type::Boolean => Value::Boolean(s[0] != 0),
        Type::Character => Value::Character(s[0]),
    }
}

/// The value a typed `input` line denotes, after trimming: a decimal
/// integer, a decimal float, a boolean word, or the line's first byte
/// for a character; or nothing, in which case `input` keeps reading.
pub open spec fn input_line_value(t: Type, line: Seq<u8>) -> Option<Value> {
    let w = trim(line);
    match t {
        Type::Integer => match int_literal(w) {
            Some(i) => Some(Value::Integer(i)),
            None => None,
        },
        Type::Float => match float_literal(w) {
            Some(f) => Some(Value::Float(f)),
            None => None,
        },
        Type::Boolean => match bool_literal(w) {
            Some(b) => Some(Value::Boolean(b)),
            None => None,
        },
        Type::Character => if w.len() > 0 {
            Some(Value::Character(w[0]))
        } else {
            None
        },
    }
}

/// Parse one `input` line as the requested type.
pub fn parse_input_line(t: Type, line: &[u8]) -> (r: Option<Value>)
    ensures
        r == input_line_value(t, line@),
{
    let w = trim_bytes(line);
    match t {
        Type::Integer => match parse_int_literal(w.as_slice()) {
            Some(i) => Some(Value::Integer(i)),
            None => None,
        },
        Type::Float => match parse_float_literal(w.as_slice()) {
            Some(f) => Some(Value::Float(f)),
            None => None,
        },
        Type::Boolean => match parse_bool_literal(w.as_slice()) {
            Some(b) => Some(Value::Boolean(b)),
            None => None,
        },
        Type::Character => if w.len() > 0 {
            Some(Value::Character(w[0]))
        } else {
            None
        },
    }
}

/// The bytes `write` emits decode back, under `read` of the value's
/// own type, to the value itself, bit for bit.
pub proof fn lemma_write_read_roundtrip(v: Value)
    ensures
        decoded(v.ty(), encoded(v)) == v,
{
    match v {
        Value::Integer(i) => {
            lemma_be_roundtrip(i as u64);
            assert(((i as u64) as i64) == i) by (bit_vector);
        },
        Value::Float(f) => {
            lemma_be_roundtrip(f);
        },
        Value::Boolean(b) => {
        },
        Value::Character(c) => {
        },
    }
}

/// Eight big-endian bytes of a pattern recompose to the pattern.
proof fn lemma_be_roundtrip(x: u64)
    ensures
        u64_of_be(be_bytes(x)) == x,
{
    assert((((((x >> 56) & 0xFF) as u8) as u64) << 56) | (((((x >> 48) & 0xFF) as u8) as u64)
        << 48) | (((((x >> 40) & 0xFF) as u8) as u64) << 40) | (((((x >> 32) & 0xFF) as u8) as u64)
        << 32) | (((((x >> 24) & 0xFF) as u8) as u64) << 24) | (((((x >> 16) & 0xFF) as u8) as u64)
        << 16) | (((((x >> 8) & 0xFF) as u8) as u64) << 8) | (((x & 0xFF) as u8) as u64) == x)
        by (bit_vector);
}

} // verus!
