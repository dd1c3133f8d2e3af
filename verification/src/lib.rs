//! A grammar-aware expression fuzzer for a calculator: a generator of
//! random arithmetic expressions, grammar-aware mutations of calculator
//! input, and the input filtering of the fuzzing harness.

pub mod rng;
pub mod numtext;
pub mod ast;
pub mod generator;
pub mod mutator;
pub mod harness;
pub mod laws;
