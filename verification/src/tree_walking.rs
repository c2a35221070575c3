//! The tree-walking branch: parser, resolver and evaluator.

pub mod alike;
pub mod ast;
pub mod environment;
pub mod errors;
pub mod grammar;
pub mod interpreter;
pub mod machine;
pub mod parsed;
pub mod parser;
pub mod resolved;
pub mod resolver;
pub mod runner;
pub mod scoping;
pub mod soundness;
pub mod value;
