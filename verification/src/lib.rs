//! A whole-program compiler from a small Lisp-like expression language to
//! x86-64 assembly text in NASM syntax.
//!
//! The pipeline is: source text -> surface S-expressions -> abstract syntax
//! tree -> instruction sequence -> assembly text.  Every stage after the
//! surface reader is verified: each function's output is pinned to a
//! specification function over the mathematical model of its input.

pub mod numerals;
pub mod syntax;
pub mod repr;
pub mod instr;
pub mod errors;
pub mod envmap;
pub mod surface;
pub mod parser;
pub mod compiler;
