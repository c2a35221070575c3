use lox::scanner::Scanner;
use lox::tree_walking::errors::ResolveError;
use lox::tree_walking::parser::Parser;
use lox::tree_walking::resolver::{Locals, Resolver};

fn resolve(source: &str) -> Result<Locals, ResolveError> {
    let tokens = Scanner::new(source.to_string()).scan_tokens();
    let mut parser = Parser::new(tokens);
    let statements = parser.parse();
    assert!(parser.errors().is_empty());
    Resolver::new().resolve_program(&statements)
}

fn distances(source: &str) -> Vec<(usize, usize)> {
    let mut found: Vec<(usize, usize)> = resolve(source).unwrap().into_iter().collect();
    found.sort();
    found
}

#[test]
fn natives_are_two_scopes_out_of_the_program() {
    assert_eq!(distances("println; clock;"), vec![(1, 1), (2, 1)]);
}

#[test]
fn a_variable_of_the_program_is_at_distance_zero() {
    assert_eq!(distances("var a = 1; a; a = 2;"), vec![(1, 0), (3, 0)]);
}

#[test]
fn every_block_adds_one_to_the_distance() {
    assert_eq!(distances("var a = 1; { a; { a; var a = 2; a; } }"), vec![(1, 1), (2, 2), (3, 0)]);
}

#[test]
fn parameters_live_in_the_scope_of_the_body() {
    assert_eq!(
        distances("var a = 1; fun f(x) { x; a; f; { x; } }"),
        vec![(1, 0), (2, 1), (3, 1), (4, 1)]
    );
}

#[test]
fn every_use_and_assignment_gets_a_distance() {
    let locals = resolve("var a = 1; var b = a; fun f(x) { b = x + a; } f(b);").unwrap();
    for id in [1, 3, 4, 5, 6, 7] {
        assert!(locals.contains_key(&id));
    }
    assert_eq!(locals.len(), 6);
}

#[test]
fn a_variable_that_no_scope_defines_is_an_error() {
    assert_eq!(
        resolve("{ var a = 1; } a;"),
        Err(ResolveError::UndefinedVariable { name: "a".to_string() })
    );
    assert_eq!(
        resolve("b = 1;"),
        Err(ResolveError::UndefinedVariable { name: "b".to_string() })
    );
    assert_eq!(
        resolve("fun f() { g(); } fun g() { }"),
        Err(ResolveError::UndefinedVariable { name: "g".to_string() })
    );
}

#[test]
fn a_variable_in_its_own_initializer_is_an_error() {
    assert_eq!(
        resolve("var a = a;"),
        Err(ResolveError::OwnInitializer { name: "a".to_string() })
    );
}

#[test]
fn an_outer_variable_can_initialize_after_the_inner_scope_closed() {
    assert_eq!(distances("var a = 1; { var b = a; }"), vec![(1, 1)]);
}

#[test]
fn scopes_can_be_opened_and_closed_by_hand() {
    let mut resolver = Resolver::new();
    resolver.begin_scope();
    resolver.declare("x");
    resolver.define("x");
    resolver.end_scope();
    assert_eq!(resolver.resolve_program(&vec![]).unwrap().len(), 0);
}

#[test]
fn resolve_errors_have_messages() {
    assert_eq!(
        ResolveError::UndefinedVariable { name: "a".to_string() }.message(),
        "variable must be defined before it's used: a"
    );
    assert_eq!(
        ResolveError::OwnInitializer { name: "a".to_string() }.message(),
        "can't read local variable in its own initializer: a"
    );
}
