use lox::scanner::{Scanner, Token, TokenType};
use lox::tree_walking::ast::{BinaryOperator, Expr, Literal, Stmt, UnaryOperator};
use lox::tree_walking::errors::SyntaxError;
use lox::tree_walking::parser::Parser;

fn parse(source: &str) -> (Vec<Stmt>, Vec<SyntaxError>) {
    let tokens = Scanner::new(source.to_string()).scan_tokens();
    let mut parser = Parser::new(tokens);
    let statements = parser.parse();
    (statements, parser.errors().clone())
}

fn program(source: &str) -> Vec<Stmt> {
    let (statements, errors) = parse(source);
    assert_eq!(errors, vec![]);
    statements
}

fn errors(source: &str) -> Vec<SyntaxError> {
    let (statements, errors) = parse(source);
    assert!(statements.is_empty());
    errors
}

fn number(lexeme: &str) -> Box<Expr> {
    Box::new(Expr::Literal { value: Literal::Number { lexeme: lexeme.to_string() } })
}

fn identifier(name: &str, id: usize) -> Box<Expr> {
    Box::new(Expr::Literal { value: Literal::Identifier { name: name.to_string(), id } })
}

fn literal(value: Literal) -> Box<Expr> {
    Box::new(Expr::Literal { value })
}

fn binary(operator: BinaryOperator, left: Box<Expr>, right: Box<Expr>) -> Box<Expr> {
    Box::new(Expr::Binary { operator, left, right })
}

fn expression(expression: Box<Expr>) -> Stmt {
    Stmt::Expression { expression }
}

#[test]
fn calls_chain_on_the_same_receiver() {
    assert_eq!(
        program("test()(1, 2);"),
        vec![expression(Box::new(Expr::Call {
            function: Box::new(Expr::Call { function: identifier("test", 1), arguments: vec![] }),
            arguments: vec![*number("1"), *number("2")],
        }))]
    );
}

#[test]
fn assignment_associates_to_the_right() {
    assert_eq!(
        program("a = b = true ? 1 : 2;"),
        vec![expression(Box::new(Expr::Assignment {
            name: "a".to_string(),
            expression: Box::new(Expr::Assignment {
                name: "b".to_string(),
                expression: Box::new(Expr::Ternary {
                    conditional: literal(Literal::True),
                    true_case: number("1"),
                    false_case: number("2"),
                }),
                id: 3,
            }),
            id: 4,
        }))]
    );
}

#[test]
fn factors_bind_tighter_than_terms() {
    assert_eq!(
        program("1 + 2 * 3 - 4;"),
        vec![expression(binary(
            BinaryOperator::Minus,
            binary(
                BinaryOperator::Plus,
                number("1"),
                binary(BinaryOperator::Star, number("2"), number("3"))
            ),
            number("4")
        ))]
    );
}

#[test]
fn comparison_binds_tighter_than_equality_and_logic() {
    assert_eq!(
        program("a < 1 == b >= 2 and c or d;"),
        vec![expression(binary(
            BinaryOperator::Or,
            binary(
                BinaryOperator::And,
                binary(
                    BinaryOperator::EqualEqual,
                    binary(BinaryOperator::Less, identifier("a", 1), number("1")),
                    binary(BinaryOperator::GreaterEqual, identifier("b", 2), number("2"))
                ),
                identifier("c", 3)
            ),
            identifier("d", 4)
        ))]
    );
}

#[test]
fn ternary_associates_to_the_right_in_its_else_branch() {
    assert_eq!(
        program("true ? 1 : 2 ? 3 : 4;"),
        vec![expression(Box::new(Expr::Ternary {
            conditional: literal(Literal::True),
            true_case: number("1"),
            false_case: Box::new(Expr::Ternary {
                conditional: number("2"),
                true_case: number("3"),
                false_case: number("4"),
            }),
        }))]
    );
}

#[test]
fn comma_is_the_loosest_operator() {
    assert_eq!(
        program("a = 1, 2;"),
        vec![expression(binary(
            BinaryOperator::Comma,
            Box::new(Expr::Assignment { name: "a".to_string(), expression: number("1"), id: 2 }),
            number("2")
        ))]
    );
}

#[test]
fn unary_operators_nest() {
    assert_eq!(
        program("!-(x);"),
        vec![expression(Box::new(Expr::Unary {
            operator: UnaryOperator::Bang,
            expr: Box::new(Expr::Unary {
                operator: UnaryOperator::Minus,
                expr: Box::new(Expr::Grouping { expr: identifier("x", 1) }),
            }),
        }))]
    );
}

#[test]
fn statements_are_parsed() {
    assert_eq!(
        program("var a = \"s\"; fun f(x, y) { x; } while (a) { } if (nil) { a; } else { }"),
        vec![
            Stmt::Declaration {
                name: "a".to_string(),
                initializer: literal(Literal::String { value: "s".to_string() })
            },
            Stmt::FunDeclaration {
                name: "f".to_string(),
                parameters: vec!["x".to_string(), "y".to_string()],
                body: vec![expression(identifier("x", 1))],
            },
            Stmt::While {
                condition: identifier("a", 2),
                statement: Box::new(Stmt::Block { statements: vec![] }),
            },
            Stmt::If {
                condition: literal(Literal::Nil),
                true_case: Box::new(Stmt::Block { statements: vec![expression(identifier("a", 3))] }),
                false_case: Some(Box::new(Stmt::Block { statements: vec![] })),
            },
        ]
    );
}

#[test]
fn parsing_twice_gives_the_same_program() {
    let source = "var a = 1; fun f(x) { a = a + x; } f(2); { var b = a ? a : f; }";
    assert_eq!(program(source), program(source));
}

#[test]
fn identities_are_all_different() {
    let tokens = Scanner::new("a = b + c(d, e = f);".to_string()).scan_tokens();
    let mut parser = Parser::new(tokens);
    let statements = parser.parse();
    assert_eq!(
        statements,
        vec![expression(Box::new(Expr::Assignment {
            name: "a".to_string(),
            expression: binary(
                BinaryOperator::Plus,
                identifier("b", 2),
                Box::new(Expr::Call {
                    function: identifier("c", 3),
                    arguments: vec![
                        *identifier("d", 4),
                        Expr::Assignment {
                            name: "e".to_string(),
                            expression: identifier("f", 6),
                            id: 7
                        }
                    ],
                })
            ),
            id: 8,
        }))]
    );
}

#[test]
fn each_syntax_error_has_an_input() {
    assert_eq!(errors("1"), vec![SyntaxError::MissingSemicolon]);
    assert_eq!(errors("var = 1;"), vec![SyntaxError::VariableDeclarationMissingIdentifier]);
    assert_eq!(errors("var a;"), vec![SyntaxError::VariableDeclarationMissingAssignment]);
    assert_eq!(errors("1 = 2;"), vec![SyntaxError::LValueMustBeAnIdentifier]);
    assert_eq!(errors("a ? b;"), vec![SyntaxError::MissingColonInTernary]);
    assert_eq!(errors("(1;"), vec![SyntaxError::MissingRightParen]);
    assert_eq!(errors("f(1;"), vec![SyntaxError::MissingRightParen]);
    assert_eq!(errors("+;"), vec![SyntaxError::UnexpectedTokenInExpression]);
    assert_eq!(errors("return 1;"), vec![SyntaxError::UnexpectedTokenInExpression]);
    assert_eq!(errors("{ 1;"), vec![SyntaxError::MissingRightBrace]);
    assert_eq!(errors("while 1 { }"), vec![SyntaxError::MissingWhileConditionLeftParen]);
    assert_eq!(errors("while (1) 2;"), vec![SyntaxError::WhileBodyNotEnclosedInBlock]);
    assert_eq!(errors("if 1 { }"), vec![SyntaxError::MissingIfConditionLeftParen]);
    assert_eq!(errors("if (1) 2;"), vec![SyntaxError::IfBodyNotEnclosedInBlock]);
    assert_eq!(errors("if (1) { } else 2;"), vec![SyntaxError::ElseBodyNotEnclosedInBlock]);
    assert_eq!(errors("fun f { }"), vec![SyntaxError::MissingParametersDeclarationOpeningParen]);
    assert_eq!(errors("fun f(a { }"), vec![SyntaxError::MissingParametersDeclarationOpeningParen]);
    assert_eq!(errors("fun (a) { }"), vec![SyntaxError::MissingFunctionDeclarationIdentifier]);
    assert_eq!(errors("fun f(1) { }"), vec![SyntaxError::ExpectedParameterIdentifier]);
    assert_eq!(errors("fun f() 1;"), vec![SyntaxError::MissingBodyOpeningBrace]);
}

#[test]
fn parsing_goes_on_behind_a_statement_that_failed() {
    assert_eq!(
        errors("1 + ; 2 3; var a = 4; (5;"),
        vec![
            SyntaxError::UnexpectedTokenInExpression,
            SyntaxError::MissingSemicolon,
            SyntaxError::MissingRightParen
        ]
    );
}

#[test]
fn errors_inside_a_block_are_recorded_and_the_block_goes_on() {
    assert_eq!(
        errors("{ 1 +; 2; } var = 3;"),
        vec![
            SyntaxError::UnexpectedTokenInExpression,
            SyntaxError::VariableDeclarationMissingIdentifier
        ]
    );
}

#[test]
fn tokens_without_an_end_are_read_to_their_end() {
    let tokens = vec![
        Token { kind: TokenType::True, lexeme: "true".to_string(), line: 1 },
        Token { kind: TokenType::Semicolon, lexeme: ";".to_string(), line: 1 },
    ];
    let mut parser = Parser::new(tokens);
    assert_eq!(parser.parse(), vec![expression(literal(Literal::True))]);
    let mut parser = Parser::new(vec![]);
    assert_eq!(parser.parse(), vec![]);
}

#[test]
fn syntax_errors_have_messages() {
    assert_eq!(SyntaxError::MissingSemicolon.message(), "';' expected at the end of a statement");
    assert_eq!(SyntaxError::MissingRightBrace.message(), "expected closing '}' after a block");
}
