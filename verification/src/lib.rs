//! Verified core of the Bud zkVM toolchain: the instruction set, the
//! canonical public-input layout of an execution proof, the byte form of
//! programs, and the BudL front end (lexer, parser, semantic analysis).
pub mod ast;
pub mod bytecode;
pub mod isa;
pub mod lexer;
pub mod public_inputs;
pub mod error;
pub mod grammar;
pub mod parser;
pub mod pipeline;
pub mod run;
pub mod semantic;
