//! From source text to a program that is ready to run.

use crate::scanner::{tokens_of, Scanner};
use crate::tree_walking::ast::{stmt_views, Stmt, StmtView};
use crate::tree_walking::errors::{ResolveError, ResolveErrorView, SyntaxError};
use crate::tree_walking::grammar;
use crate::tree_walking::parsed::parsed_program_is_tidy;
use crate::tree_walking::parser::Parser;
use crate::tree_walking::resolved::resolved_program_is_well_scoped;
use crate::tree_walking::scoping::scoped_stmts;
use crate::tree_walking::soundness::initial_scopes;
use crate::tree_walking::resolver;
use crate::tree_walking::resolver::{Locals, Resolver};
use vstd::prelude::*;

verus! {

/// Why a source text is no program.
#[derive(Debug, PartialEq)]
pub enum Error {
    /// The parser recorded these errors, in this order.
    Syntax(Vec<SyntaxError>),
    /// The scopes of the program are not in order.
    Resolve(ResolveError),
}

/// A program that is ready to run: its statements, and the distances of its
/// uses of variables and its assignments.
pub struct Program {
    pub statements: Vec<Stmt>,
    pub locals: Locals,
}

/// The statements that `source` spells.
pub open spec fn statements_of(source: Seq<char>) -> Seq<StmtView> {
    grammar::program(tokens_of(source))
}

/// Scans, parses and resolves `source`.
///
/// The program comes back where the parser records no error and the
/// resolver finds the scopes in order.  It is run by an
/// [`Interpreter`](crate::tree_walking::interpreter::Interpreter), step by
/// step.
pub fn run(source: String) -> (program: Result<Program, Error>)
    ensures
        match program {
            Ok(program) => {
                &&& grammar::syntax_errors(tokens_of(source@)).len() == 0
                &&& stmt_views(program.statements@) == statements_of(source@)
                &&& resolver::resolve(statements_of(source@)) == Ok::<
                    Map<usize, usize>,
                    ResolveErrorView,
                >(program.locals@)
                &&& tokens_of(source@).len() + 2 <= usize::MAX ==> scoped_stmts(
                    program.locals@,
                    initial_scopes(),
                    statements_of(source@),
                    0,
                )
            },
            Err(Error::Syntax(errors)) => {
                &&& errors@.len() > 0
                &&& errors@ == grammar::syntax_errors(tokens_of(source@))
            },
            Err(Error::Resolve(error)) => {
                &&& grammar::syntax_errors(tokens_of(source@)).len() == 0
                &&& resolver::resolve(statements_of(source@)) == Err::<
                    Map<usize, usize>,
                    ResolveErrorView,
                >(error@)
            },
        },
{
    let scanner = Scanner::new(source);
    let tokens = scanner.scan_tokens();
    let mut parser = Parser::new(tokens);
    let statements = parser.parse();
    let mut errors: Vec<SyntaxError> = Vec::new();
    let mut index: usize = 0;
    while index < parser.errors().len()
        invariant
            index <= parser.recorded().len(),
            errors@ == parser.recorded().take(index as int),
        decreases parser.recorded().len() - index,
    {
        errors.push(parser.errors()[index]);
        index += 1;
        assert(errors@ =~= parser.recorded().take(index as int));
    }
    assert(errors@ =~= parser.recorded());
    assert(parser.recorded() =~= grammar::syntax_errors(tokens_of(source@)));
    proof {
        grammar::lemma_program_is_read(tokens_of(source@), Seq::empty(), 0, 1);
        if tokens_of(source@).len() + 2 <= usize::MAX && resolver::resolve(
            statements_of(source@),
        ) is Ok {
            parsed_program_is_tidy(tokens_of(source@));
            resolved_program_is_well_scoped(statements_of(source@));
        }
    }
    if errors.len() > 0 {
        return Err(Error::Syntax(errors));
    }
    let resolver = Resolver::new();
    match resolver.resolve_program(&statements) {
        Ok(locals) => Ok(Program { statements, locals }),
        Err(error) => Err(Error::Resolve(error)),
    }
}

} // verus!
