//! A step-wise interpreter for a minimal, bracket-structured instruction
//! language over a fixed-size byte tape.
//!
//! Source text is lexed into tokens under a configurable strictness policy,
//! the bracket structure is validated and compiled into a bidirectional jump
//! table, and the resulting program is executed one instruction per `step`
//! call against a byte tape with a single movable pointer.

pub mod errors;
pub mod instruction;
pub mod interpreter;
pub mod io;
pub mod lexer;
pub mod parser;
pub mod semantics;
pub mod tape;
