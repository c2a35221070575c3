//! From source text to a chunk that is ready to run.

use crate::scanner::{tokens_of, Scanner};
use crate::vm::chunk::Chunk;
use crate::vm::compile;
use crate::vm::compile::SyntaxError;
use crate::vm::parser::Parser;
use vstd::prelude::*;

verus! {

/// Scans `source` and compiles the expression at its start.
///
/// The chunk comes back where the expression is in order.  It is run by a
/// [`VM`](crate::vm::vm::VM), step by step.
pub fn run(source: String) -> (chunk: Result<Chunk, SyntaxError>)
    ensures
        match chunk {
            Ok(chunk) => compile::compile(tokens_of(source@)).result is Ok && chunk@
                == compile::compile(tokens_of(source@)).chunk,
            Err(error) => compile::compile(tokens_of(source@)).result == Err::<(), SyntaxError>(
                error,
            ),
        },
{
    let scanner = Scanner::new(source);
    let mut parser = Parser::new(scanner);
    match parser.parse() {
        Ok(_) => Ok(parser.take_chunk()),
        Err(error) => Err(error),
    }
}

} // verus!
