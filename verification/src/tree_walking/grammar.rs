//! The grammar of the language, as functions on sequences of tokens.
//!
//! ```text
//! program     = declaration* EOF
//! declaration = varDecl | funDecl | statement
//! varDecl     = "var" IDENT "=" expression ";"
//! funDecl     = "fun" IDENT "(" params? ")" block
//! params      = IDENT ("," IDENT)*
//! statement   = block | whileStmt | ifStmt | exprStmt
//! block       = "{" declaration* "}"
//! whileStmt   = "while" "(" expression ")" block
//! ifStmt      = "if" "(" expression ")" block ("else" block)?
//! exprStmt    = expression ";"
//! expression  = comma
//! comma       = assignment ("," assignment)*
//! assignment  = IDENT "=" assignment | logic_or
//! logic_or    = logic_and ("or" logic_and)*
//! logic_and   = ternary ("and" ternary)*
//! ternary     = equality ("?" equality ":" ternary)?
//! equality    = comparison (("=="|"!=") comparison)*
//! comparison  = term ((">"|">="|"<"|"<=") term)*
//! term        = factor (("+"|"-") factor)*
//! factor      = unary (("*"|"/") unary)*
//! unary       = ("!"|"-") unary | call
//! call        = primary ("(" arguments? ")")*
//! arguments   = assignment ("," assignment)*
//! primary     = IDENT | NUMBER | STRING | "true" | "false" | "nil"
//!             | "(" expression ")"
//! ```
//!
//! Each function of this file reads one rule at a position `pos` of the
//! tokens, with `id` the next free identity for a variable use or an
//! assignment.  It tells what was read or what went wrong, how many tokens
//! were read and how many identities were handed out.

use crate::scanner::{TokenKind, TokenView};
use crate::tree_walking::ast::{BinaryOperator, ExprView, LiteralView, StmtView, UnaryOperator};
use crate::tree_walking::errors::SyntaxError;
use vstd::prelude::*;

verus! {

/// What reading an expression rule gave.
pub struct Parsed<T> {
    /// What was read, or what went wrong.
    pub result: Result<T, SyntaxError>,
    /// How many tokens were read.
    pub consumed: nat,
    /// How many identities were handed out.
    pub ids: nat,
}

impl<T> Parsed<T> {
    /// The same outcome, behind `consumed` tokens and `ids` identities more.
    pub open spec fn after(self, consumed: nat, ids: nat) -> Parsed<T> {
        Parsed { result: self.result, consumed: self.consumed + consumed, ids: self.ids + ids }
    }
}

pub open spec fn done<T>(value: T, consumed: nat, ids: nat) -> Parsed<T> {
    Parsed { result: Ok(value), consumed, ids }
}

pub open spec fn fail<T>(error: SyntaxError, consumed: nat, ids: nat) -> Parsed<T> {
    Parsed { result: Err(error), consumed, ids }
}

/// What reading a statement rule gave.  Statements inside a block may fail
/// one by one: their errors are recorded and the block goes on.
pub struct ParsedStmt<T> {
    /// What was read, or what went wrong.
    pub result: Result<T, SyntaxError>,
    /// How many tokens were read.
    pub consumed: nat,
    /// How many identities were handed out.
    pub ids: nat,
    /// The errors that were recorded on the way, in order.
    pub errors: Seq<SyntaxError>,
}

impl<T> ParsedStmt<T> {
    /// The same outcome, behind `consumed` tokens, `ids` identities and the
    /// recorded `errors`.
    pub open spec fn after(self, consumed: nat, ids: nat, errors: Seq<SyntaxError>) -> ParsedStmt<
        T,
    > {
        ParsedStmt {
            result: self.result,
            consumed: self.consumed + consumed,
            ids: self.ids + ids,
            errors: errors + self.errors,
        }
    }

    /// The same outcome, behind `consumed` tokens and `ids` identities more.
    pub open spec fn shift(self, consumed: nat, ids: nat) -> ParsedStmt<T> {
        ParsedStmt {
            result: self.result,
            consumed: self.consumed + consumed,
            ids: self.ids + ids,
            errors: self.errors,
        }
    }

    /// The same outcome, with `f` applied to what was read.
    pub open spec fn map<U>(self, f: spec_fn(T) -> U) -> ParsedStmt<U> {
        ParsedStmt {
            result: match self.result {
                Ok(value) => Ok(f(value)),
                Err(error) => Err(error),
            },
            consumed: self.consumed,
            ids: self.ids,
            errors: self.errors,
        }
    }
}

pub open spec fn done_stmt<T>(value: T, consumed: nat, ids: nat) -> ParsedStmt<T> {
    ParsedStmt { result: Ok(value), consumed, ids, errors: Seq::empty() }
}

pub open spec fn fail_stmt<T>(error: SyntaxError, consumed: nat, ids: nat) -> ParsedStmt<T> {
    ParsedStmt { result: Err(error), consumed, ids, errors: Seq::empty() }
}

/// The kind of the token at `pos`; behind the last token, `Eof`.
pub open spec fn kind_at(tokens: Seq<TokenView>, pos: nat) -> TokenKind {
    if pos < tokens.len() {
        tokens[pos as int].kind
    } else {
        TokenKind::Eof
    }
}

/// Whether the tokens end at `pos`.
pub open spec fn at_end(tokens: Seq<TokenView>, pos: nat) -> bool {
    kind_at(tokens, pos) is Eof
}

/// How many tokens stand at `pos` and behind it.
pub open spec fn left(tokens: Seq<TokenView>, pos: nat) -> nat {
    if pos < tokens.len() {
        (tokens.len() - pos) as nat
    } else {
        0
    }
}

/// The levels of the binary operators that associate to the left, from the
/// one that binds least.
#[derive(Debug, Clone, Copy, PartialEq, Eq, Structural)]
pub enum Level {
    Comma,
    Or,
    And,
    Equality,
    Comparison,
    Term,
    Factor,
}

impl Level {
    /// The operator of this level that a token of kind `kind` stands for.
    pub open spec fn operator(self, kind: TokenKind) -> Option<BinaryOperator> {
        match (self, kind) {
            (Level::Comma, TokenKind::Comma) => Some(BinaryOperator::Comma),
            (Level::Or, TokenKind::Or) => Some(BinaryOperator::Or),
            (Level::And, TokenKind::And) => Some(BinaryOperator::And),
            (Level::Equality, TokenKind::EqualEqual) => Some(BinaryOperator::EqualEqual),
            (Level::Equality, TokenKind::BangEqual) => Some(BinaryOperator::BangEqual),
            (Level::Comparison, TokenKind::Less) => Some(BinaryOperator::Less),
            (Level::Comparison, TokenKind::LessEqual) => Some(BinaryOperator::LessEqual),
            (Level::Comparison, TokenKind::Greater) => Some(BinaryOperator::Greater),
            (Level::Comparison, TokenKind::GreaterEqual) => Some(BinaryOperator::GreaterEqual),
            (Level::Term, TokenKind::Plus) => Some(BinaryOperator::Plus),
            (Level::Term, TokenKind::Minus) => Some(BinaryOperator::Minus),
            (Level::Factor, TokenKind::Star) => Some(BinaryOperator::Star),
            (Level::Factor, TokenKind::Slash) => Some(BinaryOperator::Slash),
            _ => None,
        }
    }

    /// The place of the level's rule among the rules that may follow one
    /// another without a token read in between.
    pub open spec fn rank(self) -> nat {
        match self {
            Level::Factor => 3,
            Level::Term => 4,
            Level::Comparison => 5,
            Level::Equality => 6,
            Level::And => 8,
            Level::Or => 9,
            Level::Comma => 11,
        }
    }
}

pub open spec fn binary_expr(operator: BinaryOperator, left: ExprView, right: ExprView) -> ExprView {
    ExprView::Binary { operator, left: Box::new(left), right: Box::new(right) }
}

pub open spec fn literal_expr(value: LiteralView) -> ExprView {
    ExprView::Literal { value }
}

/// A literal, the use of a variable, or an expression in parentheses.
pub open spec fn atom(tokens: Seq<TokenView>, pos: nat, id: nat) -> Parsed<ExprView>
    decreases left(tokens, pos), 0nat, 1nat,
{
    match kind_at(tokens, pos) {
        TokenKind::Number(lexeme) => done(literal_expr(LiteralView::Number { lexeme }), 1, 0),
        TokenKind::String(value) => done(literal_expr(LiteralView::String { value }), 1, 0),
        TokenKind::True => done(literal_expr(LiteralView::True), 1, 0),
        TokenKind::False => done(literal_expr(LiteralView::False), 1, 0),
        TokenKind::Nil => done(literal_expr(LiteralView::Nil), 1, 0),
        TokenKind::Identifier(name) => done(
            literal_expr(LiteralView::Identifier { name, id }),
            1,
            1,
        ),
        TokenKind::LeftParen => {
            let inner = expression(tokens, pos + 1, id);
            match inner.result {
                Err(error) => fail(error, 1 + inner.consumed, inner.ids),
                Ok(expr) => {
                    if kind_at(tokens, pos + 1 + inner.consumed) is RightParen {
                        done(
                            ExprView::Grouping { expr: Box::new(expr) },
                            inner.consumed + 2,
                            inner.ids,
                        )
                    } else {
                        fail(SyntaxError::MissingRightParen, 1 + inner.consumed, inner.ids)
                    }
                },
            }
        },
        _ => fail(SyntaxError::UnexpectedTokenInExpression, 0, 0),
    }
}

/// `primary`, with the calls that follow it.
pub open spec fn primary(tokens: Seq<TokenView>, pos: nat, id: nat) -> Parsed<ExprView>
    decreases left(tokens, pos), 1nat, 0nat,
{
    let first = atom(tokens, pos, id);
    match first.result {
        Err(error) => first,
        Ok(expr) => calls(tokens, expr, pos + first.consumed, id + first.ids).after(
            first.consumed,
            first.ids,
        ),
    }
}

/// The calls `("(" arguments? ")")*` that follow `callee`.
pub open spec fn calls(tokens: Seq<TokenView>, callee: ExprView, pos: nat, id: nat) -> Parsed<
    ExprView,
>
    decreases left(tokens, pos), 0nat, 0nat,
{
    if kind_at(tokens, pos) is LeftParen {
        let list = finish_call(tokens, pos + 1, id);
        match list.result {
            Err(error) => fail(error, 1 + list.consumed, list.ids),
            Ok(arguments) => calls(
                tokens,
                ExprView::Call { function: Box::new(callee), arguments },
                pos + 1 + list.consumed,
                id + list.ids,
            ).after(1 + list.consumed, list.ids),
        }
    } else {
        done(callee, 0, 0)
    }
}

/// `arguments? ")"`.
pub open spec fn finish_call(tokens: Seq<TokenView>, pos: nat, id: nat) -> Parsed<Seq<ExprView>>
    decreases left(tokens, pos), 12nat, 0nat,
{
    if kind_at(tokens, pos) is RightParen {
        done(Seq::empty(), 1, 0)
    } else {
        arguments(tokens, Seq::empty(), pos, id)
    }
}

/// `assignment ("," assignment)* ")"`, behind the arguments `before`.
pub open spec fn arguments(tokens: Seq<TokenView>, before: Seq<ExprView>, pos: nat, id: nat) -> Parsed<
    Seq<ExprView>,
>
    decreases left(tokens, pos), 11nat, 0nat,
{
    let first = assignment(tokens, pos, id);
    match first.result {
        Err(error) => fail(error, first.consumed, first.ids),
        Ok(expr) => {
            let next = pos + first.consumed;
            if kind_at(tokens, next) is Comma {
                arguments(tokens, before.push(expr), next + 1, id + first.ids).after(
                    first.consumed + 1,
                    first.ids,
                )
            } else if kind_at(tokens, next) is RightParen {
                done(before.push(expr), first.consumed + 1, first.ids)
            } else {
                fail(SyntaxError::MissingRightParen, first.consumed, first.ids)
            }
        },
    }
}

/// `("!"|"-") unary | call`.
pub open spec fn unary(tokens: Seq<TokenView>, pos: nat, id: nat) -> Parsed<ExprView>
    decreases left(tokens, pos), 2nat, 0nat,
{
    let operator = match kind_at(tokens, pos) {
        TokenKind::Bang => Some(UnaryOperator::Bang),
        TokenKind::Minus => Some(UnaryOperator::Minus),
        _ => None,
    };
    match operator {
        None => primary(tokens, pos, id),
        Some(operator) => {
            let operand = unary(tokens, pos + 1, id);
            match operand.result {
                Err(error) => fail(error, 1 + operand.consumed, operand.ids),
                Ok(expr) => done(
                    ExprView::Unary { operator, expr: Box::new(expr) },
                    1 + operand.consumed,
                    operand.ids,
                ),
            }
        },
    }
}

/// The rule of the operands of the operators of `level`.
pub open spec fn operand(tokens: Seq<TokenView>, level: Level, pos: nat, id: nat) -> Parsed<
    ExprView,
>
    decreases left(tokens, pos), level.rank(), 0nat,
{
    match level {
        Level::Comma => assignment(tokens, pos, id),
        Level::Or => binary(tokens, Level::And, pos, id),
        Level::And => ternary(tokens, pos, id),
        Level::Equality => binary(tokens, Level::Comparison, pos, id),
        Level::Comparison => binary(tokens, Level::Term, pos, id),
        Level::Term => binary(tokens, Level::Factor, pos, id),
        Level::Factor => unary(tokens, pos, id),
    }
}

/// `operand (operator operand)*` for the operators of `level`, which
/// associate to the left.
pub open spec fn binary(tokens: Seq<TokenView>, level: Level, pos: nat, id: nat) -> Parsed<
    ExprView,
>
    decreases left(tokens, pos), level.rank(), 1nat,
{
    let first = operand(tokens, level, pos, id);
    match first.result {
        Err(error) => first,
        Ok(expr) => binary_rest(tokens, level, expr, pos + first.consumed, id + first.ids).after(
            first.consumed,
            first.ids,
        ),
    }
}

/// `(operator operand)*` for the operators of `level`, behind the operand `lhs`.
pub open spec fn binary_rest(
    tokens: Seq<TokenView>,
    level: Level,
    lhs: ExprView,
    pos: nat,
    id: nat,
) -> Parsed<ExprView>
    decreases left(tokens, pos), 0nat, 0nat,
{
    match level.operator(kind_at(tokens, pos)) {
        None => done(lhs, 0, 0),
        Some(operator) => {
            let right = operand(tokens, level, pos + 1, id);
            match right.result {
                Err(error) => fail(error, 1 + right.consumed, right.ids),
                Ok(expr) => binary_rest(
                    tokens,
                    level,
                    binary_expr(operator, lhs, expr),
                    pos + 1 + right.consumed,
                    id + right.ids,
                ).after(1 + right.consumed, right.ids),
            }
        },
    }
}

/// `equality ("?" equality ":" ternary)?`.
pub open spec fn ternary(tokens: Seq<TokenView>, pos: nat, id: nat) -> Parsed<ExprView>
    decreases left(tokens, pos), 7nat, 0nat,
{
    let first = binary(tokens, Level::Equality, pos, id);
    match first.result {
        Err(error) => first,
        Ok(conditional) => {
            let question = pos + first.consumed;
            if kind_at(tokens, question) is Question {
                let second = binary(tokens, Level::Equality, question + 1, id + first.ids);
                let colon = question + 1 + second.consumed;
                let used = first.ids + second.ids;
                match second.result {
                    Err(error) => fail(error, first.consumed + 1 + second.consumed, used),
                    Ok(true_case) => {
                        if kind_at(tokens, colon) is Colon {
                            let third = ternary(tokens, colon + 1, id + used);
                            let read = first.consumed + second.consumed + third.consumed + 2;
                            match third.result {
                                Err(error) => fail(error, read, used + third.ids),
                                Ok(false_case) => done(
                                    ExprView::Ternary {
                                        conditional: Box::new(conditional),
                                        true_case: Box::new(true_case),
                                        false_case: Box::new(false_case),
                                    },
                                    read,
                                    used + third.ids,
                                ),
                            }
                        } else {
                            fail(
                                SyntaxError::MissingColonInTernary,
                                first.consumed + 1 + second.consumed,
                                used,
                            )
                        }
                    },
                }
            } else {
                first
            }
        },
    }
}

/// `IDENT "=" assignment | logic_or`.  The left side is read as a `logic_or`
/// first, and must turn out to be the use of a variable where `=` follows.
pub open spec fn assignment(tokens: Seq<TokenView>, pos: nat, id: nat) -> Parsed<ExprView>
    decreases left(tokens, pos), 10nat, 0nat,
{
    let target = binary(tokens, Level::Or, pos, id);
    match target.result {
        Err(error) => target,
        Ok(l_value) => {
            let equal = pos + target.consumed;
            if kind_at(tokens, equal) is Eqal {
                let value = assignment(tokens, equal + 1, id + target.ids);
                let read = target.consumed + 1 + value.consumed;
                let used = target.ids + value.ids;
                match value.result {
                    Err(error) => fail(error, read, used),
                    Ok(r_value) => match l_value {
                        ExprView::Literal { value: LiteralView::Identifier { name, .. } } => done(
                            ExprView::Assignment {
                                name,
                                expression: Box::new(r_value),
                                id: id + used,
                            },
                            read,
                            used + 1,
                        ),
                        _ => fail(SyntaxError::LValueMustBeAnIdentifier, read, used),
                    },
                }
            } else {
                target
            }
        },
    }
}

/// `expression`.
#[verifier::opaque]
pub open spec fn expression(tokens: Seq<TokenView>, pos: nat, id: nat) -> Parsed<ExprView>
    decreases left(tokens, pos), 12nat, 0nat,
{
    binary(tokens, Level::Comma, pos, id)
}

/// `expression ";"`.
#[verifier::opaque]
pub open spec fn expr_stmt(tokens: Seq<TokenView>, pos: nat, id: nat) -> ParsedStmt<StmtView> {
    let read = expression(tokens, pos, id);
    match read.result {
        Err(error) => fail_stmt(error, read.consumed, read.ids),
        Ok(expression) => {
            if kind_at(tokens, pos + read.consumed) is Semicolon {
                done_stmt(StmtView::Expression { expression }, read.consumed + 1, read.ids)
            } else {
                fail_stmt(SyntaxError::MissingSemicolon, read.consumed, read.ids)
            }
        },
    }
}

/// `IDENT "=" expression ";"`, behind `var`.
#[verifier::opaque]
pub open spec fn variable_declaration(tokens: Seq<TokenView>, pos: nat, id: nat) -> ParsedStmt<
    StmtView,
> {
    match kind_at(tokens, pos) {
        TokenKind::Identifier(name) => {
            if kind_at(tokens, pos + 1) is Eqal {
                let read = expression(tokens, pos + 2, id);
                match read.result {
                    Err(error) => fail_stmt(error, 2 + read.consumed, read.ids),
                    Ok(initializer) => {
                        if kind_at(tokens, pos + 2 + read.consumed) is Semicolon {
                            done_stmt(
                                StmtView::Declaration { name, initializer },
                                3 + read.consumed,
                                read.ids,
                            )
                        } else {
                            fail_stmt(
                                SyntaxError::MissingSemicolon,
                                2 + read.consumed,
                                read.ids,
                            )
                        }
                    },
                }
            } else {
                fail_stmt(SyntaxError::VariableDeclarationMissingAssignment, 1, 0)
            }
        },
        _ => fail_stmt(SyntaxError::VariableDeclarationMissingIdentifier, 0, 0),
    }
}

/// `IDENT ("," IDENT)*`, behind the names `before`.
#[verifier::opaque]
pub open spec fn parameters(tokens: Seq<TokenView>, before: Seq<Seq<char>>, pos: nat) -> Parsed<
    Seq<Seq<char>>,
>
    decreases left(tokens, pos),
{
    match kind_at(tokens, pos) {
        TokenKind::Identifier(name) => {
            if kind_at(tokens, pos + 1) is Comma {
                parameters(tokens, before.push(name), pos + 2).after(2, 0)
            } else {
                done(before.push(name), 1, 0)
            }
        },
        _ => fail(SyntaxError::ExpectedParameterIdentifier, 0, 0),
    }
}

/// `params? ")"`.
#[verifier::opaque]
pub open spec fn parameter_list(tokens: Seq<TokenView>, pos: nat) -> Parsed<Seq<Seq<char>>> {
    if kind_at(tokens, pos) is RightParen {
        done(Seq::empty(), 1, 0)
    } else {
        let names = parameters(tokens, Seq::empty(), pos);
        match names.result {
            Err(error) => names,
            Ok(list) => {
                if kind_at(tokens, pos + names.consumed) is RightParen {
                    done(list, names.consumed + 1, 0)
                } else {
                    fail(
                        SyntaxError::MissingParametersDeclarationOpeningParen,
                        names.consumed,
                        0,
                    )
                }
            },
        }
    }
}

pub open spec fn block_stmt(statements: Seq<StmtView>) -> StmtView {
    StmtView::Block { statements }
}

/// How many tokens are passed over after an error at `pos`: the token at
/// `pos`, and those behind it up to one that follows a `;` or is `fun` or
/// `var`, or up to the end.
pub open spec fn synchronize(tokens: Seq<TokenView>, pos: nat) -> nat {
    if at_end(tokens, pos) {
        0
    } else {
        1 + skipped(tokens, pos + 1)
    }
}

/// How many tokens are passed over from `pos` on, up to one that follows a
/// `;` or is `fun` or `var`, or up to the end.
#[verifier::opaque]
pub open spec fn skipped(tokens: Seq<TokenView>, pos: nat) -> nat
    decreases left(tokens, pos),
{
    if at_end(tokens, pos) || (pos > 0 && kind_at(tokens, (pos - 1) as nat) is Semicolon)
        || kind_at(tokens, pos) is Fun || kind_at(tokens, pos) is Var {
        0
    } else {
        1 + skipped(tokens, pos + 1)
    }
}

/// `varDecl | funDecl | statement`.  Where the rule fails, the error is
/// recorded, tokens are passed over as [`synchronize`] says, and no statement
/// is read.
#[verifier::opaque]
pub open spec fn declaration(tokens: Seq<TokenView>, pos: nat, id: nat) -> ParsedStmt<
    Option<StmtView>,
>
    decreases left(tokens, pos), 2nat,
{
    let read = if kind_at(tokens, pos) is Var {
        variable_declaration(tokens, pos + 1, id).shift(1, 0)
    } else if kind_at(tokens, pos) is Fun {
        function_declaration(tokens, pos + 1, id).shift(1, 0)
    } else {
        statement(tokens, pos, id)
    };
    match read.result {
        Ok(stmt) => ParsedStmt {
            result: Ok(Some(stmt)),
            consumed: read.consumed,
            ids: read.ids,
            errors: read.errors,
        },
        Err(error) => ParsedStmt {
            result: Ok(None),
            consumed: read.consumed + synchronize(tokens, pos + read.consumed),
            ids: read.ids,
            errors: read.errors.push(error),
        },
    }
}

/// `IDENT "(" params? ")" block`, behind `fun`.
#[verifier::opaque]
pub open spec fn function_declaration(tokens: Seq<TokenView>, pos: nat, id: nat) -> ParsedStmt<
    StmtView,
>
    decreases left(tokens, pos), 0nat,
{
    match kind_at(tokens, pos) {
        TokenKind::Identifier(name) => {
            if kind_at(tokens, pos + 1) is LeftParen {
                let list = parameter_list(tokens, pos + 2);
                let brace = pos + 2 + list.consumed;
                match list.result {
                    Err(error) => fail_stmt(error, 2 + list.consumed, 0),
                    Ok(parameters) => {
                        if kind_at(tokens, brace) is LeftBrace {
                            block(tokens, brace + 1, id).map(
                                |body: Seq<StmtView>|
                                    StmtView::FunDeclaration { name, parameters, body },
                            ).shift(3 + list.consumed, 0)
                        } else {
                            fail_stmt(SyntaxError::MissingBodyOpeningBrace, 2 + list.consumed, 0)
                        }
                    },
                }
            } else {
                fail_stmt(SyntaxError::MissingParametersDeclarationOpeningParen, 1, 0)
            }
        },
        _ => fail_stmt(SyntaxError::MissingFunctionDeclarationIdentifier, 0, 0),
    }
}

/// `block | whileStmt | ifStmt | exprStmt`.
#[verifier::opaque]
pub open spec fn statement(tokens: Seq<TokenView>, pos: nat, id: nat) -> ParsedStmt<StmtView>
    decreases left(tokens, pos), 1nat,
{
    match kind_at(tokens, pos) {
        TokenKind::LeftBrace => block(tokens, pos + 1, id).map(
            |statements: Seq<StmtView>| block_stmt(statements),
        ).shift(1, 0),
        TokenKind::While => while_(tokens, pos + 1, id).shift(1, 0),
        TokenKind::If => if_(tokens, pos + 1, id).shift(1, 0),
        _ => expr_stmt(tokens, pos, id),
    }
}

/// `declaration* "}"`, behind `{`.
#[verifier::opaque]
pub open spec fn block(tokens: Seq<TokenView>, pos: nat, id: nat) -> ParsedStmt<Seq<StmtView>>
    decreases left(tokens, pos), 4nat,
{
    block_rest(tokens, Seq::empty(), pos, id)
}

/// The statements `before`, with the one that `read` holds, if it holds one.
pub open spec fn with_declared(before: Seq<StmtView>, read: ParsedStmt<Option<StmtView>>) -> Seq<
    StmtView,
> {
    match read.result {
        Ok(Some(stmt)) => before.push(stmt),
        _ => before,
    }
}

/// `declaration* "}"`, behind the statements `before`.
#[verifier::opaque]
pub open spec fn block_rest(
    tokens: Seq<TokenView>,
    before: Seq<StmtView>,
    pos: nat,
    id: nat,
) -> ParsedStmt<Seq<StmtView>>
    decreases left(tokens, pos), 3nat,
{
    if kind_at(tokens, pos) is RightBrace {
        done_stmt(before, 1, 0)
    } else if at_end(tokens, pos) {
        fail_stmt(SyntaxError::MissingRightBrace, 0, 0)
    } else {
        let read = declaration(tokens, pos, id);
        if read.consumed == 0 {
            // Never so: see `lemma_declaration_reads`.  The test lets the
            // definition end without it.
            fail_stmt(SyntaxError::MissingRightBrace, 0, 0)
        } else {
            block_rest(
                tokens,
                with_declared(before, read),
                pos + read.consumed,
                id + read.ids,
            ).after(read.consumed, read.ids, read.errors)
        }
    }
}

/// `"(" expression ")" block`, behind `while`.
#[verifier::opaque]
pub open spec fn while_(tokens: Seq<TokenView>, pos: nat, id: nat) -> ParsedStmt<StmtView>
    decreases left(tokens, pos), 0nat,
{
    if kind_at(tokens, pos) is LeftParen {
        let read = expression(tokens, pos + 1, id);
        let close = pos + 1 + read.consumed;
        match read.result {
            Err(error) => fail_stmt(error, 1 + read.consumed, read.ids),
            Ok(condition) => {
                if !(kind_at(tokens, close) is RightParen) {
                    fail_stmt(SyntaxError::MissingRightParen, 1 + read.consumed, read.ids)
                } else if !(kind_at(tokens, close + 1) is LeftBrace) {
                    fail_stmt(
                        SyntaxError::WhileBodyNotEnclosedInBlock,
                        2 + read.consumed,
                        read.ids,
                    )
                } else {
                    block(tokens, close + 2, id + read.ids).map(
                        |statements: Seq<StmtView>|
                            StmtView::While {
                                condition,
                                statement: Box::new(block_stmt(statements)),
                            },
                    ).shift(3 + read.consumed, read.ids)
                }
            },
        }
    } else {
        fail_stmt(SyntaxError::MissingWhileConditionLeftParen, 0, 0)
    }
}

/// `"(" expression ")" block ("else" block)?`, behind `if`.
#[verifier::opaque]
pub open spec fn if_(tokens: Seq<TokenView>, pos: nat, id: nat) -> ParsedStmt<StmtView>
    decreases left(tokens, pos), 1nat,
{
    if kind_at(tokens, pos) is LeftParen {
        let read = expression(tokens, pos + 1, id);
        let close = pos + 1 + read.consumed;
        match read.result {
            Err(error) => fail_stmt(error, 1 + read.consumed, read.ids),
            Ok(condition) => {
                if !(kind_at(tokens, close) is RightParen) {
                    fail_stmt(SyntaxError::MissingRightParen, 1 + read.consumed, read.ids)
                } else if !(kind_at(tokens, close + 1) is LeftBrace) {
                    fail_stmt(SyntaxError::IfBodyNotEnclosedInBlock, 2 + read.consumed, read.ids)
                } else {
                    let first = block(tokens, close + 2, id + read.ids);
                    match first.result {
                        Err(error) => ParsedStmt {
                            result: Err(error),
                            consumed: first.consumed + 3 + read.consumed,
                            ids: first.ids + read.ids,
                            errors: first.errors,
                        },
                        Ok(true_case) => else_(
                            tokens,
                            condition,
                            true_case,
                            close + 2 + first.consumed,
                            id + read.ids + first.ids,
                        ).after(3 + read.consumed + first.consumed, read.ids + first.ids, first.errors),
                    }
                }
            },
        }
    } else {
        fail_stmt(SyntaxError::MissingIfConditionLeftParen, 0, 0)
    }
}

/// `("else" block)?`, behind the condition and the first block of an `if`.
#[verifier::opaque]
pub open spec fn else_(
    tokens: Seq<TokenView>,
    condition: ExprView,
    true_case: Seq<StmtView>,
    pos: nat,
    id: nat,
) -> ParsedStmt<StmtView>
    decreases left(tokens, pos), 0nat,
{
    if !(kind_at(tokens, pos) is Else) {
        done_stmt(
            StmtView::If {
                condition,
                true_case: Box::new(block_stmt(true_case)),
                false_case: None,
            },
            0,
            0,
        )
    } else if !(kind_at(tokens, pos + 1) is LeftBrace) {
        fail_stmt(SyntaxError::ElseBodyNotEnclosedInBlock, 1, 0)
    } else {
        block(tokens, pos + 2, id).map(
            |statements: Seq<StmtView>|
                StmtView::If {
                    condition,
                    true_case: Box::new(block_stmt(true_case)),
                    false_case: Some(Box::new(block_stmt(statements))),
                },
        ).shift(2, 0)
    }
}

/// `declaration*` up to the end of the tokens, behind the statements `before`.
#[verifier::opaque]
pub open spec fn program_rest(
    tokens: Seq<TokenView>,
    before: Seq<StmtView>,
    pos: nat,
    id: nat,
) -> ParsedStmt<Seq<StmtView>>
    decreases left(tokens, pos),
{
    if at_end(tokens, pos) {
        done_stmt(before, 0, 0)
    } else {
        let read = declaration(tokens, pos, id);
        proof {
            lemma_declaration_reads(tokens, pos, id);
        }
        program_rest(
            tokens,
            with_declared(before, read),
            pos + read.consumed,
            id + read.ids,
        ).after(read.consumed, read.ids, read.errors)
    }
}

/// The errors that reading `tokens` as a program records, in order.  The
/// first identity handed out is 1.
pub open spec fn syntax_errors(tokens: Seq<TokenView>) -> Seq<SyntaxError> {
    program_rest(tokens, Seq::empty(), 0, 1).errors
}

/// The program that `tokens` spell: its statements where no error is
/// recorded, and no statement where one is.
pub open spec fn program(tokens: Seq<TokenView>) -> Seq<StmtView> {
    let read = program_rest(tokens, Seq::empty(), 0, 1);
    match read.result {
        Ok(statements) if read.errors.len() == 0 => statements,
        _ => Seq::empty(),
    }
}

/// A declaration that starts before the end of the tokens reads one token at
/// least: a block and a program never stand still.
pub proof fn lemma_declaration_reads(tokens: Seq<TokenView>, pos: nat, id: nat)
    requires
        !at_end(tokens, pos),
    ensures
        declaration(tokens, pos, id).consumed > 0,
{
    reveal(declaration);
    reveal(statement);
    reveal(expr_stmt);
    reveal(skipped);
}

/// Reading a program never fails as a whole: what is wrong with a statement
/// is recorded, and reading goes on behind the statement.
pub proof fn lemma_program_is_read(tokens: Seq<TokenView>, before: Seq<StmtView>, pos: nat, id: nat)
    ensures
        program_rest(tokens, before, pos, id).result is Ok,
    decreases left(tokens, pos),
{
    reveal(program_rest);
    if !at_end(tokens, pos) {
        let read = declaration(tokens, pos, id);
        lemma_declaration_reads(tokens, pos, id);
        lemma_program_is_read(
            tokens,
            with_declared(before, read),
            pos + read.consumed,
            id + read.ids,
        );
    }
}

} // verus!
