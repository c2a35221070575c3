//! The bytecode branch: compiler and stack machine.

pub mod chunk;
pub mod compile;
pub mod parser;
pub mod runner;
pub mod vm;
