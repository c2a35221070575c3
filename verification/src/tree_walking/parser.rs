//! The parser: tokens to a syntax tree, by recursive descent.
//!
//! Every method reads one rule of the grammar at the parser's position and
//! is held to the function of the same name in [`crate::tree_walking::grammar`].

use crate::scanner::{token_views, Token, TokenKind, TokenType, TokenView};
use crate::tree_walking::ast::{
    expr_views, lemma_expr_views_push, lemma_stmt_views_push, name_views, stmt_view, stmt_views,
    BinaryOperator, Expr, ExprView, Literal, Stmt, StmtView, UnaryOperator,
};
use crate::tree_walking::errors::SyntaxError;
use crate::tree_walking::grammar;
use crate::tree_walking::grammar::{at_end, kind_at, left, Level, Parsed, ParsedStmt};
use vstd::prelude::*;

verus! {

impl Level {
    /// The operator of this level that a token of kind `kind` stands for.
    pub fn operator_of(self, kind: &TokenType) -> (operator: Option<BinaryOperator>)
        ensures
            operator == self.operator(kind@),
    {
        match (self, kind) {
            (Level::Comma, TokenType::Comma) => Some(BinaryOperator::Comma),
            (Level::Or, TokenType::Or) => Some(BinaryOperator::Or),
            (Level::And, TokenType::And) => Some(BinaryOperator::And),
            (Level::Equality, TokenType::EqualEqual) => Some(BinaryOperator::EqualEqual),
            (Level::Equality, TokenType::BangEqual) => Some(BinaryOperator::BangEqual),
            (Level::Comparison, TokenType::Less) => Some(BinaryOperator::Less),
            (Level::Comparison, TokenType::LessEqual) => Some(BinaryOperator::LessEqual),
            (Level::Comparison, TokenType::Greater) => Some(BinaryOperator::Greater),
            (Level::Comparison, TokenType::GreaterEqual) => Some(BinaryOperator::GreaterEqual),
            (Level::Term, TokenType::Plus) => Some(BinaryOperator::Plus),
            (Level::Term, TokenType::Minus) => Some(BinaryOperator::Minus),
            (Level::Factor, TokenType::Star) => Some(BinaryOperator::Star),
            (Level::Factor, TokenType::Slash) => Some(BinaryOperator::Slash),
            _ => None,
        }
    }
}

/// A parser over one sequence of tokens.
pub struct Parser {
    tokens: Vec<Token>,
    current: usize,
    errors: Vec<SyntaxError>,
    /// How many identities were handed out.
    issued: usize,
}

/// The parser went from `pre` to `post` as `read` tells.
pub open spec fn follows<T>(pre: &Parser, post: &Parser, read: Parsed<T>) -> bool {
    &&& post.wf()
    &&& post.tokens() == pre.tokens()
    &&& post.recorded() == pre.recorded()
    &&& post.position() == pre.position() + read.consumed
    &&& post.next_id() == pre.next_id() + read.ids
    &&& read.ids <= read.consumed
}

/// The parser went from `pre` to `post` as `read` tells.
pub open spec fn follows_stmt<T>(pre: &Parser, post: &Parser, read: ParsedStmt<T>) -> bool {
    &&& post.wf()
    &&& post.tokens() == pre.tokens()
    &&& post.recorded() =~= pre.recorded() + read.errors
    &&& post.position() == pre.position() + read.consumed
    &&& post.next_id() == pre.next_id() + read.ids
    &&& read.ids <= read.consumed
}

pub open spec fn expr_is(got: Result<Expr, SyntaxError>, read: Result<ExprView, SyntaxError>) -> bool {
    match got {
        Ok(expr) => read == Ok::<ExprView, SyntaxError>(expr@),
        Err(error) => read == Err::<ExprView, SyntaxError>(error),
    }
}

pub open spec fn exprs_are(
    got: Result<Vec<Expr>, SyntaxError>,
    read: Result<Seq<ExprView>, SyntaxError>,
) -> bool {
    match got {
        Ok(exprs) => read == Ok::<Seq<ExprView>, SyntaxError>(expr_views(exprs@)),
        Err(error) => read == Err::<Seq<ExprView>, SyntaxError>(error),
    }
}

pub open spec fn stmt_is(got: Result<Stmt, SyntaxError>, read: Result<StmtView, SyntaxError>) -> bool {
    match got {
        Ok(stmt) => read == Ok::<StmtView, SyntaxError>(stmt@),
        Err(error) => read == Err::<StmtView, SyntaxError>(error),
    }
}

pub open spec fn stmts_are(
    got: Result<Vec<Stmt>, SyntaxError>,
    read: Result<Seq<StmtView>, SyntaxError>,
) -> bool {
    match got {
        Ok(stmts) => read == Ok::<Seq<StmtView>, SyntaxError>(stmt_views(stmts@)),
        Err(error) => read == Err::<Seq<StmtView>, SyntaxError>(error),
    }
}

pub open spec fn names_are(
    got: Result<Vec<String>, SyntaxError>,
    read: Result<Seq<Seq<char>>, SyntaxError>,
) -> bool {
    match got {
        Ok(names) => read == Ok::<Seq<Seq<char>>, SyntaxError>(name_views(names@)),
        Err(error) => read == Err::<Seq<Seq<char>>, SyntaxError>(error),
    }
}

impl Parser {
    /// The tokens that the parser reads.
    pub closed spec fn tokens(&self) -> Seq<TokenView> {
        token_views(self.tokens@)
    }

    /// How many tokens were read.
    pub closed spec fn position(&self) -> nat {
        self.current as nat
    }

    /// The next free identity.
    pub closed spec fn next_id(&self) -> nat {
        (self.issued + 1) as nat
    }

    /// The errors that were recorded, in order.
    pub closed spec fn recorded(&self) -> Seq<SyntaxError> {
        self.errors@
    }

    /// The position is inside the tokens or at their end, and no more
    /// identities were handed out than tokens were read.
    pub closed spec fn wf(&self) -> bool {
        &&& self.current <= self.tokens@.len()
        &&& self.issued <= self.current
    }

    /// A parser at the start of `tokens`.  The first identity that it hands
    /// out is 1.
    pub fn new(tokens: Vec<Token>) -> (parser: Self)
        ensures
            parser.wf(),
            parser.tokens() == token_views(tokens@),
            parser.position() == 0,
            parser.next_id() == 1,
            parser.recorded() == Seq::<SyntaxError>::empty(),
    {
        Parser { tokens, current: 0, errors: Vec::new(), issued: 0 }
    }

    /// The errors that were recorded, in order.
    pub fn errors(&self) -> (errors: &Vec<SyntaxError>)
        ensures
            errors@ == self.recorded(),
    {
        &self.errors
    }

    /// A fresh identity.
    fn get_id(&mut self) -> (id: usize)
        requires
            old(self).wf(),
            old(self).next_id() <= old(self).position(),
        ensures
            final(self).wf(),
            id == old(self).next_id(),
            final(self).next_id() == old(self).next_id() + 1,
            final(self).tokens() == old(self).tokens(),
            final(self).position() == old(self).position(),
            final(self).recorded() == old(self).recorded(),
    {
        self.issued = self.issued + 1;
        self.issued
    }

    /// Whether the token at the position is of kind `expected`.
    fn check(&self, expected: &TokenType) -> (found: bool)
        requires
            self.wf(),
        ensures
            found == (kind_at(self.tokens(), self.position()) == expected@),
    {
        if self.current < self.tokens.len() {
            self.tokens[self.current].kind.same(expected)
        } else {
            TokenType::Eof.same(expected)
        }
    }

    /// The kind of the token at the position.
    fn peek(&self) -> (kind: TokenType)
        requires
            self.wf(),
        ensures
            kind@ == kind_at(self.tokens(), self.position()),
    {
        if self.current < self.tokens.len() {
            self.tokens[self.current].kind.duplicate()
        } else {
            TokenType::Eof
        }
    }

    /// Whether a `;` stands before the position.
    fn previous(&self) -> (semicolon: bool)
        requires
            self.wf(),
        ensures
            semicolon == (self.position() > 0 && kind_at(
                self.tokens(),
                (self.position() - 1) as nat,
            ) is Semicolon),
    {
        if self.current > 0 {
            self.tokens[self.current - 1].kind.same(&TokenType::Semicolon)
        } else {
            false
        }
    }

    fn is_at_and(&self) -> (end: bool)
        requires
            self.wf(),
        ensures
            end == at_end(self.tokens(), self.position()),
    {
        self.check(&TokenType::Eof)
    }

    /// Reads one token, unless the tokens end here.
    fn advance(&mut self)
        requires
            old(self).wf(),
        ensures
            final(self).wf(),
            final(self).tokens() == old(self).tokens(),
            final(self).recorded() == old(self).recorded(),
            final(self).next_id() == old(self).next_id(),
            final(self).position() == if at_end(old(self).tokens(), old(self).position()) {
                old(self).position()
            } else {
                old(self).position() + 1
            },
    {
        if !self.is_at_and() {
            let count = self.tokens.len();
            assert(self.current < count);
            self.current += 1;
        }
    }

    /// Reads one token if it is of kind `token_type`.
    fn match_(&mut self, token_type: TokenType) -> (matched: bool)
        requires
            old(self).wf(),
        ensures
            final(self).wf(),
            final(self).tokens() == old(self).tokens(),
            final(self).recorded() == old(self).recorded(),
            final(self).next_id() == old(self).next_id(),
            matched == (kind_at(old(self).tokens(), old(self).position()) == token_type@),
            final(self).position() == if matched && !(token_type@ is Eof) {
                old(self).position() + 1
            } else {
                old(self).position()
            },
    {
        if self.check(&token_type) {
            self.advance();
            true
        } else {
            false
        }
    }

    /// Reads one token of kind `token`, or fails with `err`.
    fn consume(&mut self, token: TokenType, err: SyntaxError) -> (read: Result<(), SyntaxError>)
        requires
            old(self).wf(),
        ensures
            final(self).wf(),
            final(self).tokens() == old(self).tokens(),
            final(self).recorded() == old(self).recorded(),
            final(self).next_id() == old(self).next_id(),
            read is Ok == (kind_at(old(self).tokens(), old(self).position()) == token@),
            read is Err ==> read == Err::<(), SyntaxError>(err),
            final(self).position() == if read is Ok && !(token@ is Eof) {
                old(self).position() + 1
            } else {
                old(self).position()
            },
    {
        if !self.match_(token) {
            Err(err)
        } else {
            Ok(())
        }
    }

    fn report_error(&mut self, error: SyntaxError)
        requires
            old(self).wf(),
        ensures
            final(self).wf(),
            final(self).tokens() == old(self).tokens(),
            final(self).recorded() == old(self).recorded().push(error),
            final(self).next_id() == old(self).next_id(),
            final(self).position() == old(self).position(),
    {
        self.errors.push(error);
    }

    /// Passes over the tokens of a statement that failed.
    fn synchronize(&mut self)
        requires
            old(self).wf(),
        ensures
            final(self).wf(),
            final(self).tokens() == old(self).tokens(),
            final(self).recorded() == old(self).recorded(),
            final(self).next_id() == old(self).next_id(),
            final(self).position() == old(self).position() + grammar::synchronize(
                old(self).tokens(),
                old(self).position(),
            ),
    {
        proof {
            reveal(grammar::skipped);
        }
        if self.is_at_and() {
            return ;
        }
        self.advance();
        while !self.is_at_and()
            invariant
                self.wf(),
                self.tokens() == old(self).tokens(),
                self.recorded() == old(self).recorded(),
                self.next_id() == old(self).next_id(),
                self.position() > old(self).position(),
                old(self).position() + grammar::synchronize(
                    old(self).tokens(),
                    old(self).position(),
                ) == self.position() + grammar::skipped(self.tokens(), self.position()),
            decreases left(self.tokens(), self.position()),
        {
            proof {
                reveal(grammar::skipped);
            }
            if self.previous() {
                return ;
            }
            if self.check(&TokenType::Fun) || self.check(&TokenType::Var) {
                return ;
            }
            self.advance();
        }
    }

    /// A literal, the use of a variable, or an expression in parentheses.
    fn atom(&mut self) -> (read: Result<Expr, SyntaxError>)
        requires
            old(self).wf(),
        ensures
            follows(
                old(self),
                final(self),
                grammar::atom(old(self).tokens(), old(self).position(), old(self).next_id()),
            ),
            expr_is(
                read,
                grammar::atom(
                    old(self).tokens(),
                    old(self).position(),
                    old(self).next_id(),
                ).result,
            ),
        decreases left(old(self).tokens(), old(self).position()), 0nat, 1nat,
    {
        proof {
            reveal(grammar::expression);
        }
        match self.peek() {
            TokenType::Number(lexeme) => {
                self.advance();
                Ok(Expr::Literal { value: Literal::Number { lexeme } })
            },
            TokenType::String(value) => {
                self.advance();
                Ok(Expr::Literal { value: Literal::String { value } })
            },
            TokenType::True => {
                self.advance();
                Ok(Expr::Literal { value: Literal::True })
            },
            TokenType::False => {
                self.advance();
                Ok(Expr::Literal { value: Literal::False })
            },
            TokenType::Nil => {
                self.advance();
                Ok(Expr::Literal { value: Literal::Nil })
            },
            TokenType::Identifier(name) => {
                self.advance();
                let id = self.get_id();
                Ok(Expr::Literal { value: Literal::Identifier { name, id } })
            },
            TokenType::LeftParen => {
                self.advance();
                let expr = match self.expression() {
                    Ok(expr) => expr,
                    Err(error) => {
                        return Err(error);
                    },
                };
                if self.match_(TokenType::RightParen) {
                    Ok(Expr::Grouping { expr: Box::new(expr) })
                } else {
                    Err(SyntaxError::MissingRightParen)
                }
            },
            _ => Err(SyntaxError::UnexpectedTokenInExpression),
        }
    }

    /// `primary`, with the calls that follow it.
    fn primary(&mut self) -> (read: Result<Expr, SyntaxError>)
        requires
            old(self).wf(),
        ensures
            follows(
                old(self),
                final(self),
                grammar::primary(old(self).tokens(), old(self).position(), old(self).next_id()),
            ),
            expr_is(
                read,
                grammar::primary(
                    old(self).tokens(),
                    old(self).position(),
                    old(self).next_id(),
                ).result,
            ),
        decreases left(old(self).tokens(), old(self).position()), 1nat, 0nat,
    {
        match self.atom() {
            Ok(expr) => self.calls(expr),
            Err(error) => Err(error),
        }
    }

    /// The calls `("(" arguments? ")")*` that follow `callee`.
    fn calls(&mut self, callee: Expr) -> (read: Result<Expr, SyntaxError>)
        requires
            old(self).wf(),
        ensures
            follows(
                old(self),
                final(self),
                grammar::calls(
                    old(self).tokens(),
                    callee@,
                    old(self).position(),
                    old(self).next_id(),
                ),
            ),
            expr_is(
                read,
                grammar::calls(
                    old(self).tokens(),
                    callee@,
                    old(self).position(),
                    old(self).next_id(),
                ).result,
            ),
        decreases left(old(self).tokens(), old(self).position()), 0nat, 0nat,
    {
        if self.match_(TokenType::LeftParen) {
            match self.finish_call() {
                Ok(arguments) => self.calls(Expr::Call { function: Box::new(callee), arguments }),
                Err(error) => Err(error),
            }
        } else {
            Ok(callee)
        }
    }

    /// `arguments? ")"`.
    fn finish_call(&mut self) -> (read: Result<Vec<Expr>, SyntaxError>)
        requires
            old(self).wf(),
        ensures
            follows(
                old(self),
                final(self),
                grammar::finish_call(
                    old(self).tokens(),
                    old(self).position(),
                    old(self).next_id(),
                ),
            ),
            exprs_are(
                read,
                grammar::finish_call(
                    old(self).tokens(),
                    old(self).position(),
                    old(self).next_id(),
                ).result,
            ),
        decreases left(old(self).tokens(), old(self).position()), 12nat, 0nat,
    {
        let arguments: Vec<Expr> = Vec::new();
        if self.match_(TokenType::RightParen) {
            return Ok(arguments);
        }
        self.arguments(arguments)
    }

    /// `assignment ("," assignment)* ")"`, behind the arguments `before`.
    fn arguments(&mut self, before: Vec<Expr>) -> (read: Result<Vec<Expr>, SyntaxError>)
        requires
            old(self).wf(),
        ensures
            follows(
                old(self),
                final(self),
                grammar::arguments(
                    old(self).tokens(),
                    expr_views(before@),
                    old(self).position(),
                    old(self).next_id(),
                ),
            ),
            exprs_are(
                read,
                grammar::arguments(
                    old(self).tokens(),
                    expr_views(before@),
                    old(self).position(),
                    old(self).next_id(),
                ).result,
            ),
        decreases left(old(self).tokens(), old(self).position()), 11nat, 0nat,
    {
        let mut arguments = before;
        let expr = match self.assignment() {
            Ok(expr) => expr,
            Err(error) => {
                return Err(error);
            },
        };
        proof {
            lemma_expr_views_push(arguments@, expr);
        }
        arguments.push(expr);
        if self.match_(TokenType::Comma) {
            self.arguments(arguments)
        } else if self.match_(TokenType::RightParen) {
            Ok(arguments)
        } else {
            Err(SyntaxError::MissingRightParen)
        }
    }

    /// `("!"|"-") unary | call`.
    fn unary(&mut self) -> (read: Result<Expr, SyntaxError>)
        requires
            old(self).wf(),
        ensures
            follows(
                old(self),
                final(self),
                grammar::unary(old(self).tokens(), old(self).position(), old(self).next_id()),
            ),
            expr_is(
                read,
                grammar::unary(
                    old(self).tokens(),
                    old(self).position(),
                    old(self).next_id(),
                ).result,
            ),
        decreases left(old(self).tokens(), old(self).position()), 2nat, 0nat,
    {
        let operator = if self.match_(TokenType::Bang) {
            UnaryOperator::Bang
        } else if self.match_(TokenType::Minus) {
            UnaryOperator::Minus
        } else {
            return self.primary();
        };
        match self.unary() {
            Ok(expr) => Ok(Expr::Unary { operator, expr: Box::new(expr) }),
            Err(error) => Err(error),
        }
    }

    /// The rule of the operands of the operators of `level`.
    fn operand(&mut self, level: Level) -> (read: Result<Expr, SyntaxError>)
        requires
            old(self).wf(),
        ensures
            follows(
                old(self),
                final(self),
                grammar::operand(
                    old(self).tokens(),
                    level,
                    old(self).position(),
                    old(self).next_id(),
                ),
            ),
            expr_is(
                read,
                grammar::operand(
                    old(self).tokens(),
                    level,
                    old(self).position(),
                    old(self).next_id(),
                ).result,
            ),
        decreases left(old(self).tokens(), old(self).position()), level.rank(), 0nat,
    {
        match level {
            Level::Comma => self.assignment(),
            Level::Or => self.logical_and(),
            Level::And => self.ternary(),
            Level::Equality => self.comparison(),
            Level::Comparison => self.term(),
            Level::Term => self.factor(),
            Level::Factor => self.unary(),
        }
    }

    /// `operand (operator operand)*` for the operators of `level`.
    fn binary(&mut self, level: Level) -> (read: Result<Expr, SyntaxError>)
        requires
            old(self).wf(),
        ensures
            follows(
                old(self),
                final(self),
                grammar::binary(
                    old(self).tokens(),
                    level,
                    old(self).position(),
                    old(self).next_id(),
                ),
            ),
            expr_is(
                read,
                grammar::binary(
                    old(self).tokens(),
                    level,
                    old(self).position(),
                    old(self).next_id(),
                ).result,
            ),
        decreases left(old(self).tokens(), old(self).position()), level.rank(), 1nat,
    {
        let ghost target = grammar::binary(
            self.tokens(),
            level,
            self.position(),
            self.next_id(),
        );
        let ghost start = self.position();
        let ghost first_id = self.next_id();
        let mut expr = match self.operand(level) {
            Ok(expr) => expr,
            Err(error) => {
                return Err(error);
            },
        };
        loop
            invariant
                self.wf(),
                self.tokens() == old(self).tokens(),
                self.recorded() == old(self).recorded(),
                start == old(self).position(),
                first_id == old(self).next_id(),
                self.position() >= start,
                self.next_id() >= first_id,
                self.next_id() - first_id <= self.position() - start,
                target == grammar::binary(
                    old(self).tokens(),
                    level,
                    old(self).position(),
                    old(self).next_id(),
                ),
                target == grammar::binary_rest(
                    self.tokens(),
                    level,
                    expr@,
                    self.position(),
                    self.next_id(),
                ).after((self.position() - start) as nat, (self.next_id() - first_id) as nat),
            decreases left(self.tokens(), self.position()),
        {
            let operator = match level.operator_of(&self.peek()) {
                Some(operator) => operator,
                None => {
                    return Ok(expr);
                },
            };
            self.advance();
            let right = match self.operand(level) {
                Ok(right) => right,
                Err(error) => {
                    return Err(error);
                },
            };
            expr = Expr::Binary { operator, left: Box::new(expr), right: Box::new(right) };
        }
    }

    /// `factor`.
    fn factor(&mut self) -> (read: Result<Expr, SyntaxError>)
        requires
            old(self).wf(),
        ensures
            follows(
                old(self),
                final(self),
                grammar::binary(
                    old(self).tokens(),
                    Level::Factor,
                    old(self).position(),
                    old(self).next_id(),
                ),
            ),
            expr_is(
                read,
                grammar::binary(
                    old(self).tokens(),
                    Level::Factor,
                    old(self).position(),
                    old(self).next_id(),
                ).result,
            ),
        decreases left(old(self).tokens(), old(self).position()), Level::Factor.rank(), 2nat,
    {
        self.binary(Level::Factor)
    }

    /// `term`.
    fn term(&mut self) -> (read: Result<Expr, SyntaxError>)
        requires
            old(self).wf(),
        ensures
            follows(
                old(self),
                final(self),
                grammar::binary(
                    old(self).tokens(),
                    Level::Term,
                    old(self).position(),
                    old(self).next_id(),
                ),
            ),
            expr_is(
                read,
                grammar::binary(
                    old(self).tokens(),
                    Level::Term,
                    old(self).position(),
                    old(self).next_id(),
                ).result,
            ),
        decreases left(old(self).tokens(), old(self).position()), Level::Term.rank(), 2nat,
    {
        self.binary(Level::Term)
    }

    /// `comparison`.
    fn comparison(&mut self) -> (read: Result<Expr, SyntaxError>)
        requires
            old(self).wf(),
        ensures
            follows(
                old(self),
                final(self),
                grammar::binary(
                    old(self).tokens(),
                    Level::Comparison,
                    old(self).position(),
                    old(self).next_id(),
                ),
            ),
            expr_is(
                read,
                grammar::binary(
                    old(self).tokens(),
                    Level::Comparison,
                    old(self).position(),
                    old(self).next_id(),
                ).result,
            ),
        decreases left(old(self).tokens(), old(self).position()), Level::Comparison.rank(), 2nat,
    {
        self.binary(Level::Comparison)
    }

    /// `equality`.
    fn equality(&mut self) -> (read: Result<Expr, SyntaxError>)
        requires
            old(self).wf(),
        ensures
            follows(
                old(self),
                final(self),
                grammar::binary(
                    old(self).tokens(),
                    Level::Equality,
                    old(self).position(),
                    old(self).next_id(),
                ),
            ),
            expr_is(
                read,
                grammar::binary(
                    old(self).tokens(),
                    Level::Equality,
                    old(self).position(),
                    old(self).next_id(),
                ).result,
            ),
        decreases left(old(self).tokens(), old(self).position()), Level::Equality.rank(), 2nat,
    {
        self.binary(Level::Equality)
    }

    /// `logic_and`.
    fn logical_and(&mut self) -> (read: Result<Expr, SyntaxError>)
        requires
            old(self).wf(),
        ensures
            follows(
                old(self),
                final(self),
                grammar::binary(
                    old(self).tokens(),
                    Level::And,
                    old(self).position(),
                    old(self).next_id(),
                ),
            ),
            expr_is(
                read,
                grammar::binary(
                    old(self).tokens(),
                    Level::And,
                    old(self).position(),
                    old(self).next_id(),
                ).result,
            ),
        decreases left(old(self).tokens(), old(self).position()), Level::And.rank(), 2nat,
    {
        self.binary(Level::And)
    }

    /// `logic_or`.
    fn logical_or(&mut self) -> (read: Result<Expr, SyntaxError>)
        requires
            old(self).wf(),
        ensures
            follows(
                old(self),
                final(self),
                grammar::binary(
                    old(self).tokens(),
                    Level::Or,
                    old(self).position(),
                    old(self).next_id(),
                ),
            ),
            expr_is(
                read,
                grammar::binary(
                    old(self).tokens(),
                    Level::Or,
                    old(self).position(),
                    old(self).next_id(),
                ).result,
            ),
        decreases left(old(self).tokens(), old(self).position()), Level::Or.rank(), 2nat,
    {
        self.binary(Level::Or)
    }

    /// `comma`.
    fn comma(&mut self) -> (read: Result<Expr, SyntaxError>)
        requires
            old(self).wf(),
        ensures
            follows(
                old(self),
                final(self),
                grammar::binary(
                    old(self).tokens(),
                    Level::Comma,
                    old(self).position(),
                    old(self).next_id(),
                ),
            ),
            expr_is(
                read,
                grammar::binary(
                    old(self).tokens(),
                    Level::Comma,
                    old(self).position(),
                    old(self).next_id(),
                ).result,
            ),
        decreases left(old(self).tokens(), old(self).position()), Level::Comma.rank(), 2nat,
    {
        self.binary(Level::Comma)
    }

    /// `equality ("?" equality ":" ternary)?`.
    fn ternary(&mut self) -> (read: Result<Expr, SyntaxError>)
        requires
            old(self).wf(),
        ensures
            follows(
                old(self),
                final(self),
                grammar::ternary(old(self).tokens(), old(self).position(), old(self).next_id()),
            ),
            expr_is(
                read,
                grammar::ternary(
                    old(self).tokens(),
                    old(self).position(),
                    old(self).next_id(),
                ).result,
            ),
        decreases left(old(self).tokens(), old(self).position()), 7nat, 0nat,
    {
        let conditional = match self.equality() {
            Ok(expr) => expr,
            Err(error) => {
                return Err(error);
            },
        };
        if self.match_(TokenType::Question) {
            let true_case = match self.equality() {
                Ok(expr) => expr,
                Err(error) => {
                    return Err(error);
                },
            };
            if self.match_(TokenType::Colon) {
                let false_case = match self.ternary() {
                    Ok(expr) => expr,
                    Err(error) => {
                        return Err(error);
                    },
                };
                Ok(
                    Expr::Ternary {
                        conditional: Box::new(conditional),
                        true_case: Box::new(true_case),
                        false_case: Box::new(false_case),
                    },
                )
            } else {
                Err(SyntaxError::MissingColonInTernary)
            }
        } else {
            Ok(conditional)
        }
    }

    /// `IDENT "=" assignment | logic_or`.
    fn assignment(&mut self) -> (read: Result<Expr, SyntaxError>)
        requires
            old(self).wf(),
        ensures
            follows(
                old(self),
                final(self),
                grammar::assignment(
                    old(self).tokens(),
                    old(self).position(),
                    old(self).next_id(),
                ),
            ),
            expr_is(
                read,
                grammar::assignment(
                    old(self).tokens(),
                    old(self).position(),
                    old(self).next_id(),
                ).result,
            ),
        decreases left(old(self).tokens(), old(self).position()), 10nat, 0nat,
    {
        let l_value = match self.logical_or() {
            Ok(expr) => expr,
            Err(error) => {
                return Err(error);
            },
        };
        if self.match_(TokenType::Eqal) {
            let r_value = match self.assignment() {
                Ok(expr) => expr,
                Err(error) => {
                    return Err(error);
                },
            };
            match l_value {
                Expr::Literal { value: Literal::Identifier { name, .. } } => {
                    let id = self.get_id();
                    Ok(Expr::Assignment { name, expression: Box::new(r_value), id })
                },
                _ => Err(SyntaxError::LValueMustBeAnIdentifier),
            }
        } else {
            Ok(l_value)
        }
    }

    /// `expression`.
    fn expression(&mut self) -> (read: Result<Expr, SyntaxError>)
        requires
            old(self).wf(),
        ensures
            follows(
                old(self),
                final(self),
                grammar::expression(
                    old(self).tokens(),
                    old(self).position(),
                    old(self).next_id(),
                ),
            ),
            expr_is(
                read,
                grammar::expression(
                    old(self).tokens(),
                    old(self).position(),
                    old(self).next_id(),
                ).result,
            ),
        decreases left(old(self).tokens(), old(self).position()), 12nat, 0nat,
    {
        proof {
            reveal(grammar::expression);
        }
        self.comma()
    }
    /// `expression ";"`.
    fn expr_stmt(&mut self) -> (read: Result<Stmt, SyntaxError>)
        requires
            old(self).wf(),
        ensures
            follows_stmt(
                old(self),
                final(self),
                grammar::expr_stmt(old(self).tokens(), old(self).position(), old(self).next_id()),
            ),
            stmt_is(
                read,
                grammar::expr_stmt(
                    old(self).tokens(),
                    old(self).position(),
                    old(self).next_id(),
                ).result,
            ),
    {
        proof {
            reveal(grammar::expr_stmt);
        }
        let expression = match self.expression() {
            Ok(expr) => expr,
            Err(error) => {
                return Err(error);
            },
        };
        if self.match_(TokenType::Semicolon) {
            Ok(Stmt::Expression { expression: Box::new(expression) })
        } else {
            Err(SyntaxError::MissingSemicolon)
        }
    }

    /// `IDENT "=" expression ";"`, behind `var`.
    fn variable_declaration(&mut self) -> (read: Result<Stmt, SyntaxError>)
        requires
            old(self).wf(),
        ensures
            follows_stmt(
                old(self),
                final(self),
                grammar::variable_declaration(
                    old(self).tokens(),
                    old(self).position(),
                    old(self).next_id(),
                ),
            ),
            stmt_is(
                read,
                grammar::variable_declaration(
                    old(self).tokens(),
                    old(self).position(),
                    old(self).next_id(),
                ).result,
            ),
    {
        proof {
            reveal(grammar::variable_declaration);
        }
        let name = match self.peek() {
            TokenType::Identifier(name) => name,
            _ => {
                return Err(SyntaxError::VariableDeclarationMissingIdentifier);
            },
        };
        self.advance();
        if !self.match_(TokenType::Eqal) {
            return Err(SyntaxError::VariableDeclarationMissingAssignment);
        }
        let initializer = match self.expression() {
            Ok(expr) => expr,
            Err(error) => {
                return Err(error);
            },
        };
        if self.match_(TokenType::Semicolon) {
            Ok(Stmt::Declaration { initializer: Box::new(initializer), name })
        } else {
            Err(SyntaxError::MissingSemicolon)
        }
    }

    /// The name of a parameter.
    fn match_parameter_identifier(&mut self) -> (read: Result<String, SyntaxError>)
        requires
            old(self).wf(),
        ensures
            final(self).wf(),
            final(self).tokens() == old(self).tokens(),
            final(self).recorded() == old(self).recorded(),
            final(self).next_id() == old(self).next_id(),
            match read {
                Ok(name) => kind_at(old(self).tokens(), old(self).position())
                    == TokenKind::Identifier(name@) && final(self).position() == old(self).position() + 1,
                Err(error) => !(kind_at(old(self).tokens(), old(self).position()) is Identifier)
                    && error == SyntaxError::ExpectedParameterIdentifier && final(self).position() == old(self).position(),
            },
    {
        let identifier = match self.peek() {
            TokenType::Identifier(name) => name,
            _ => {
                return Err(SyntaxError::ExpectedParameterIdentifier);
            },
        };
        self.advance();
        Ok(identifier)
    }

    /// `IDENT ("," IDENT)*`.
    fn parameters(&mut self) -> (read: Result<Vec<String>, SyntaxError>)
        requires
            old(self).wf(),
        ensures
            follows(
                old(self),
                final(self),
                grammar::parameters(
                    old(self).tokens(),
                    Seq::<Seq<char>>::empty(),
                    old(self).position(),
                ),
            ),
            names_are(
                read,
                grammar::parameters(
                    old(self).tokens(),
                    Seq::<Seq<char>>::empty(),
                    old(self).position(),
                ).result,
            ),
            final(self).next_id() == old(self).next_id(),
    {
        proof {
            reveal(grammar::parameters);
        }
        let ghost start = self.position();
        let mut parameters: Vec<String> = Vec::new();
        assert(name_views(parameters@) == Seq::<Seq<char>>::empty());
        loop
            invariant
                self.wf(),
                self.tokens() == old(self).tokens(),
                self.recorded() == old(self).recorded(),
                self.next_id() == old(self).next_id(),
                start == old(self).position(),
                self.position() >= start,
                grammar::parameters(
                    old(self).tokens(),
                    Seq::<Seq<char>>::empty(),
                    old(self).position(),
                ) == grammar::parameters(
                    self.tokens(),
                    name_views(parameters@),
                    self.position(),
                ).after((self.position() - start) as nat, 0),
            decreases left(self.tokens(), self.position()),
        {
            proof {
                reveal(grammar::parameters);
            }
            let ghost before = name_views(parameters@);
            let name = match self.match_parameter_identifier() {
                Ok(name) => name,
                Err(error) => {
                    return Err(error);
                },
            };
            parameters.push(name);
            assert(name_views(parameters@) == before.push(name@));
            if !self.match_(TokenType::Comma) {
                return Ok(parameters);
            }
        }
    }

    /// `IDENT "(" params? ")" block`, behind `fun`.
    fn function_declaration(&mut self) -> (read: Result<Stmt, SyntaxError>)
        requires
            old(self).wf(),
        ensures
            follows_stmt(
                old(self),
                final(self),
                grammar::function_declaration(
                    old(self).tokens(),
                    old(self).position(),
                    old(self).next_id(),
                ),
            ),
            stmt_is(
                read,
                grammar::function_declaration(
                    old(self).tokens(),
                    old(self).position(),
                    old(self).next_id(),
                ).result,
            ),
        decreases left(old(self).tokens(), old(self).position()), 0nat,
    {
        proof {
            reveal(grammar::function_declaration);
            reveal(grammar::parameter_list);
            reveal(grammar::block);
        }
        let name = match self.peek() {
            TokenType::Identifier(name) => name,
            _ => {
                return Err(SyntaxError::MissingFunctionDeclarationIdentifier);
            },
        };
        self.advance();
        if let Err(error) = self.consume(
            TokenType::LeftParen,
            SyntaxError::MissingParametersDeclarationOpeningParen,
        ) {
            return Err(error);
        }
        let parameters = if !self.match_(TokenType::RightParen) {
            let parameters = match self.parameters() {
                Ok(parameters) => parameters,
                Err(error) => {
                    return Err(error);
                },
            };
            if let Err(error) = self.consume(
                TokenType::RightParen,
                SyntaxError::MissingParametersDeclarationOpeningParen,
            ) {
                return Err(error);
            }
            parameters
        } else {
            Vec::new()
        };
        assert(name_views(Seq::<String>::empty()) == Seq::<Seq<char>>::empty());
        if let Err(error) = self.consume(
            TokenType::LeftBrace,
            SyntaxError::MissingBodyOpeningBrace,
        ) {
            return Err(error);
        }
        match self.block() {
            Ok(body) => Ok(Stmt::FunDeclaration { name, body, parameters }),
            Err(error) => Err(error),
        }
    }

    /// `block | whileStmt | ifStmt | exprStmt`.
    fn statement(&mut self) -> (read: Result<Stmt, SyntaxError>)
        requires
            old(self).wf(),
        ensures
            follows_stmt(
                old(self),
                final(self),
                grammar::statement(old(self).tokens(), old(self).position(), old(self).next_id()),
            ),
            stmt_is(
                read,
                grammar::statement(
                    old(self).tokens(),
                    old(self).position(),
                    old(self).next_id(),
                ).result,
            ),
        decreases left(old(self).tokens(), old(self).position()), 1nat,
    {
        proof {
            reveal(grammar::statement);
            reveal(grammar::block);
            reveal(grammar::while_);
            reveal(grammar::if_);
        }
        if self.match_(TokenType::LeftBrace) {
            match self.block() {
                Ok(statements) => Ok(Stmt::Block { statements }),
                Err(error) => Err(error),
            }
        } else if self.match_(TokenType::While) {
            self.while_()
        } else if self.match_(TokenType::If) {
            self.if_()
        } else {
            self.expr_stmt()
        }
    }

    /// `declaration* "}"`, behind `{`.
    fn block(&mut self) -> (read: Result<Vec<Stmt>, SyntaxError>)
        requires
            old(self).wf(),
        ensures
            follows_stmt(
                old(self),
                final(self),
                grammar::block(old(self).tokens(), old(self).position(), old(self).next_id()),
            ),
            stmts_are(
                read,
                grammar::block(
                    old(self).tokens(),
                    old(self).position(),
                    old(self).next_id(),
                ).result,
            ),
        decreases left(old(self).tokens(), old(self).position()), 4nat,
    {
        proof {
            reveal(grammar::block);
            reveal(grammar::block_rest);
        }
        let ghost target = grammar::block(self.tokens(), self.position(), self.next_id());
        let ghost start = self.position();
        let ghost first_id = self.next_id();
        let ghost mut errors: Seq<SyntaxError> = Seq::empty();
        let mut statements: Vec<Stmt> = Vec::new();
        assert(self.recorded() == old(self).recorded() + errors);
        while !self.check(&TokenType::RightBrace) && !self.is_at_and()
            invariant
                self.wf(),
                self.tokens() == old(self).tokens(),
                self.recorded() == old(self).recorded() + errors,
                start == old(self).position(),
                first_id == old(self).next_id(),
                self.position() >= start,
                self.next_id() >= first_id,
                self.next_id() - first_id <= self.position() - start,
                target == grammar::block(
                    old(self).tokens(),
                    old(self).position(),
                    old(self).next_id(),
                ),
                target == grammar::block_rest(
                    self.tokens(),
                    stmt_views(statements@),
                    self.position(),
                    self.next_id(),
                ).after(
                    (self.position() - start) as nat,
                    (self.next_id() - first_id) as nat,
                    errors,
                ),
            decreases left(self.tokens(), self.position()),
        {
            proof {
                reveal(grammar::block_rest);
                reveal(grammar::declaration);
            }
            let ghost rest = grammar::block_rest(
                self.tokens(),
                stmt_views(statements@),
                self.position(),
                self.next_id(),
            );
            let ghost read = grammar::declaration(
                self.tokens(),
                self.position(),
                self.next_id(),
            );
            let ghost before = errors;
            proof {
                grammar::lemma_declaration_reads(self.tokens(), self.position(), self.next_id());
            }
            if let Some(stmt) = self.declaration() {
                proof {
                    lemma_stmt_views_push(statements@, stmt);
                }
                statements.push(stmt);
            }
            proof {
                errors = errors + read.errors;
                let next = grammar::block_rest(
                    self.tokens(),
                    stmt_views(statements@),
                    self.position(),
                    self.next_id(),
                );
                assert(rest == next.after(read.consumed, read.ids, read.errors));
                assert(before + (read.errors + next.errors) == (before + read.errors)
                    + next.errors);
                assert(self.recorded() == old(self).recorded() + errors);
            }
        }
        if self.match_(TokenType::RightBrace) {
            Ok(statements)
        } else {
            Err(SyntaxError::MissingRightBrace)
        }
    }

    /// `"(" expression ")" block`, behind `while`.
    fn while_(&mut self) -> (read: Result<Stmt, SyntaxError>)
        requires
            old(self).wf(),
        ensures
            follows_stmt(
                old(self),
                final(self),
                grammar::while_(old(self).tokens(), old(self).position(), old(self).next_id()),
            ),
            stmt_is(
                read,
                grammar::while_(
                    old(self).tokens(),
                    old(self).position(),
                    old(self).next_id(),
                ).result,
            ),
        decreases left(old(self).tokens(), old(self).position()), 0nat,
    {
        proof {
            reveal(grammar::while_);
            reveal(grammar::block);
            reveal_with_fuel(stmt_view, 3);
        }
        if let Err(error) = self.consume(
            TokenType::LeftParen,
            SyntaxError::MissingWhileConditionLeftParen,
        ) {
            return Err(error);
        }
        let expression = match self.expression() {
            Ok(expr) => expr,
            Err(error) => {
                return Err(error);
            },
        };
        if let Err(error) = self.consume(TokenType::RightParen, SyntaxError::MissingRightParen) {
            return Err(error);
        }
        if let Err(error) = self.consume(
            TokenType::LeftBrace,
            SyntaxError::WhileBodyNotEnclosedInBlock,
        ) {
            return Err(error);
        }
        let statements = match self.block() {
            Ok(statements) => statements,
            Err(error) => {
                return Err(error);
            },
        };
        Ok(
            Stmt::While {
                condition: Box::new(expression),
                statement: Box::new(Stmt::Block { statements }),
            },
        )
    }

    /// `"(" expression ")" block ("else" block)?`, behind `if`.
    fn if_(&mut self) -> (read: Result<Stmt, SyntaxError>)
        requires
            old(self).wf(),
        ensures
            follows_stmt(
                old(self),
                final(self),
                grammar::if_(old(self).tokens(), old(self).position(), old(self).next_id()),
            ),
            stmt_is(
                read,
                grammar::if_(old(self).tokens(), old(self).position(), old(self).next_id()).result,
            ),
        decreases left(old(self).tokens(), old(self).position()), 1nat,
    {
        proof {
            reveal(grammar::if_);
            reveal(grammar::block);
            reveal(grammar::else_);
        }
        if let Err(error) = self.consume(
            TokenType::LeftParen,
            SyntaxError::MissingIfConditionLeftParen,
        ) {
            return Err(error);
        }
        let condition = match self.expression() {
            Ok(expr) => expr,
            Err(error) => {
                return Err(error);
            },
        };
        if let Err(error) = self.consume(TokenType::RightParen, SyntaxError::MissingRightParen) {
            return Err(error);
        }
        if let Err(error) = self.consume(
            TokenType::LeftBrace,
            SyntaxError::IfBodyNotEnclosedInBlock,
        ) {
            return Err(error);
        }
        let true_case = match self.block() {
            Ok(statements) => statements,
            Err(error) => {
                return Err(error);
            },
        };
        self.else_(condition, true_case)
    }

    /// `("else" block)?`, behind the condition and the first block of an `if`.
    fn else_(&mut self, condition: Expr, true_case: Vec<Stmt>) -> (read: Result<
        Stmt,
        SyntaxError,
    >)
        requires
            old(self).wf(),
        ensures
            follows_stmt(
                old(self),
                final(self),
                grammar::else_(
                    old(self).tokens(),
                    condition@,
                    stmt_views(true_case@),
                    old(self).position(),
                    old(self).next_id(),
                ),
            ),
            stmt_is(
                read,
                grammar::else_(
                    old(self).tokens(),
                    condition@,
                    stmt_views(true_case@),
                    old(self).position(),
                    old(self).next_id(),
                ).result,
            ),
        decreases left(old(self).tokens(), old(self).position()), 0nat,
    {
        proof {
            reveal(grammar::else_);
            reveal(grammar::block);
            reveal_with_fuel(stmt_view, 3);
        }
        let else_case = if self.match_(TokenType::Else) {
            if let Err(error) = self.consume(
                TokenType::LeftBrace,
                SyntaxError::ElseBodyNotEnclosedInBlock,
            ) {
                return Err(error);
            }
            let statements = match self.block() {
                Ok(statements) => statements,
                Err(error) => {
                    return Err(error);
                },
            };
            Some(Box::new(Stmt::Block { statements }))
        } else {
            None
        };
        Ok(
            Stmt::If {
                condition: Box::new(condition),
                true_case: Box::new(Stmt::Block { statements: true_case }),
                false_case: else_case,
            },
        )
    }

    /// `varDecl | funDecl | statement`.  Where the rule fails, the error is
    /// recorded, the tokens of the statement are passed over, and there is
    /// no statement.
    fn declaration(&mut self) -> (read: Option<Stmt>)
        requires
            old(self).wf(),
        ensures
            follows_stmt(
                old(self),
                final(self),
                grammar::declaration(
                    old(self).tokens(),
                    old(self).position(),
                    old(self).next_id(),
                ),
            ),
            grammar::declaration(
                old(self).tokens(),
                old(self).position(),
                old(self).next_id(),
            ).result == Ok::<Option<StmtView>, SyntaxError>(
                match read {
                    Some(stmt) => Some(stmt@),
                    None => None,
                },
            ),
        decreases left(old(self).tokens(), old(self).position()), 2nat,
    {
        proof {
            reveal(grammar::declaration);
            reveal(grammar::function_declaration);
            reveal(grammar::statement);
        }
        let stmt = if self.match_(TokenType::Var) {
            self.variable_declaration()
        } else if self.match_(TokenType::Fun) {
            self.function_declaration()
        } else {
            self.statement()
        };
        match stmt {
            Ok(stmt) => Some(stmt),
            Err(error) => {
                self.report_error(error);
                self.synchronize();
                None
            },
        }
    }

    /// Reads the tokens from the position on as a program.  The statements
    /// come back where no error is recorded, before the call or during it;
    /// where one is, nothing comes back.
    pub fn parse(&mut self) -> (program: Vec<Stmt>)
        requires
            old(self).wf(),
        ensures
            follows_stmt(
                old(self),
                final(self),
                grammar::program_rest(
                    old(self).tokens(),
                    Seq::<StmtView>::empty(),
                    old(self).position(),
                    old(self).next_id(),
                ),
            ),
            stmt_views(program@) == if final(self).recorded().len() == 0 {
                grammar::program_rest(
                    old(self).tokens(),
                    Seq::<StmtView>::empty(),
                    old(self).position(),
                    old(self).next_id(),
                ).result->Ok_0
            } else {
                Seq::<StmtView>::empty()
            },
    {
        proof {
            reveal(grammar::program_rest);
        }
        let ghost target = grammar::program_rest(
            self.tokens(),
            Seq::<StmtView>::empty(),
            self.position(),
            self.next_id(),
        );
        let ghost start = self.position();
        let ghost first_id = self.next_id();
        let ghost mut errors: Seq<SyntaxError> = Seq::empty();
        let mut statements: Vec<Stmt> = Vec::new();
        assert(self.recorded() == old(self).recorded() + errors);
        while !self.is_at_and()
            invariant
                self.wf(),
                self.tokens() == old(self).tokens(),
                self.recorded() == old(self).recorded() + errors,
                start == old(self).position(),
                first_id == old(self).next_id(),
                self.position() >= start,
                self.next_id() >= first_id,
                self.next_id() - first_id <= self.position() - start,
                target == grammar::program_rest(
                    old(self).tokens(),
                    Seq::<StmtView>::empty(),
                    old(self).position(),
                    old(self).next_id(),
                ),
                target == grammar::program_rest(
                    self.tokens(),
                    stmt_views(statements@),
                    self.position(),
                    self.next_id(),
                ).after(
                    (self.position() - start) as nat,
                    (self.next_id() - first_id) as nat,
                    errors,
                ),
            decreases left(self.tokens(), self.position()),
        {
            proof {
                reveal(grammar::program_rest);
            }
            let ghost rest = grammar::program_rest(
                self.tokens(),
                stmt_views(statements@),
                self.position(),
                self.next_id(),
            );
            let ghost read = grammar::declaration(
                self.tokens(),
                self.position(),
                self.next_id(),
            );
            let ghost before = errors;
            proof {
                grammar::lemma_declaration_reads(self.tokens(), self.position(), self.next_id());
            }
            if let Some(stmt) = self.declaration() {
                proof {
                    lemma_stmt_views_push(statements@, stmt);
                }
                statements.push(stmt);
            }
            proof {
                errors = errors + read.errors;
                let next = grammar::program_rest(
                    self.tokens(),
                    stmt_views(statements@),
                    self.position(),
                    self.next_id(),
                );
                assert(rest == next.after(read.consumed, read.ids, read.errors));
                assert(before + (read.errors + next.errors) == (before + read.errors)
                    + next.errors);
                assert(self.recorded() == old(self).recorded() + errors);
            }
        }
        if !self.errors.is_empty() {
            Vec::new()
        } else {
            statements
        }
    }
}

} // verus!
