//! Kod, a small dynamically typed scripting language: its lexer and parser,
//! the compiler from syntax trees to a stack bytecode, the interpreter of
//! that bytecode, and a baseline compiler from it to x86-64 machine code.
//!
//! The baseline compiler is made of an instruction encoder with labels that
//! are patched once their targets are known, a buffer of pseudo-instructions
//! with a peephole optimizer, and the lowering of bytecode to
//! pseudo-instructions over packed 64-bit values. A model of what
//! pseudo-instructions mean states what the optimizer keeps.

pub mod assembler;
pub mod bytekod;
pub mod bytes;
pub mod compiler;
pub mod folding;
pub mod heap;
pub mod lexer;
pub mod node;
pub mod object;
pub mod operand;
pub mod parser;
pub mod parser_expressions;
pub mod parser_statements;
pub mod parser_tokens;
pub mod runtime;
pub mod semantics;
pub mod simulator;
pub mod soundness;
pub mod token;
