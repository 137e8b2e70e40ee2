//! A translator from an eight-instruction tape language to C source text.
//!
//! The pipeline has two stages: [`scanner::scan`] reduces raw source text to
//! an ordered sequence of instructions, discarding every character that is
//! not one of the eight command symbols, and [`codegen::generate`] emits a
//! complete C program for that sequence: a fixed prologue, one fixed code
//! fragment per instruction in order, and a fixed epilogue. Both stages are
//! total: no input text and no instruction sequence is rejected, even one
//! whose loop delimiters are unbalanced (such a sequence yields C text that
//! the downstream C compiler will refuse).

pub mod codegen;
pub mod scanner;
