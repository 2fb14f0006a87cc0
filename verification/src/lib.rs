//! A tokenizer, parser and tree-walking interpreter for the Useless
//! Programming Language, with contracts proved by Verus.
//!
//! The language has two ways of running a program. The deterministic one
//! does what the program says. The chaotic one, which is the default, does
//! something else: `add` subtracts, `if` takes the else-branch, and
//! anything may fail at random.
//!
//! * [`lexer`] cuts source text into tokens.
//! * [`grammar`] says what a token sequence parses to, and [`parser`]
//!   parses it.
//! * [`semantics`] says what a program does, and [`interpreter`] does it.
//!   All randomness comes from a tape of draws ([`tape`]); what a program
//!   asks of its host is recorded as a list of effects.
//! * [`laws`] holds what is proved of every program.

pub mod ast;
pub mod grammar;
pub mod interpreter;
pub mod laws;
pub mod lexer;
pub mod parser;
pub mod roundtrip;
pub mod semantics;
pub mod tape;
pub mod text;
pub mod value;

pub use ast::{BinaryOp, Expression, Literal, Program, Statement};
pub use interpreter::Interpreter;
pub use lexer::{Lexer, Token, TokenKind};
pub use parser::{ParseError, Parser};
pub use semantics::ChaosConfig;
pub use value::{Effect, RuntimeError, Value};
