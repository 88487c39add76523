//! A table-driven LR(0) shift-reduce recognizer for the grammar
//! `S' -> S`, `S -> (S)`, `S -> id`, together with its lexer and a
//! second, stand-alone lexer for an arithmetic token alphabet.
//!
//! The engine is split into the lexer (`token`), the fixed ACTION and
//! GOTO tables (`tables`), the two-stack driver loop (`driver`), and
//! proved statements about the language the driver accepts (`laws`).

pub mod driver;
pub mod laws;
pub mod tables;
pub mod token;
pub mod words;
