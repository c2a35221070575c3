//! An interpreter for a small scripting language, in two branches that share
//! a scanner: a tree-walking evaluator over lexical environments, and a
//! compiler to bytecode with a stack machine.
//!
//! Both evaluators are machines that make one step at a time.  What a step
//! cannot do by itself (arithmetic on floating-point numbers, the clock,
//! writing a line) it asks of the program that runs the machine: see
//! [`host`].

pub mod host;
pub mod scanner;
pub mod text;
pub mod tree_walking;
pub mod vm;
