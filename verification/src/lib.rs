//! A register-and-stack virtual machine for a line-oriented textual
//! instruction language: a two-pass parser that turns program text
//! into a resolved, jump-target-linked instruction sequence, and an
//! execution engine that interprets one instruction at a time against
//! the machine state.
//!
//! The engine never touches a stream itself: a step that needs one
//! reports what has to be read or written, and the driver performs
//! it, so that the whole instruction semantics stays verified.
//! Floating-point values are carried as IEEE-754 bit patterns; their
//! rounding arithmetic comes from a soft-float library behind
//! trusted, named wrappers.

pub mod codec;
pub mod engine;
pub mod float;
pub mod laws;
pub mod parser;
pub mod rng;
pub mod structures;
pub mod text;

pub use engine::Interpreter;
pub use parser::parse_file;
pub use structures::Error;
pub use structures::Instruction;
pub use structures::Register;
pub use structures::Step;
pub use structures::Type;
pub use structures::Value;
pub use structures::HALT_INDEX;
