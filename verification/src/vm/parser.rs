//! The compiler: tokens to a chunk, in one pass.

use crate::scanner::{token_views, Scanner, Token, TokenType, TokenView};
use crate::vm::chunk::{Chunk, ChunkView, Opcode, Value};
use crate::vm::compile;
use crate::vm::compile::{
    kind_at, left, line_at, Compiled, SyntaxError, ASSIGNMENT_PREC, EQUALITY_PREC, FACTOR_PREC,
    NONE_PREC, TERM_PREC, UNARY_PREC,
};
use vstd::prelude::*;

verus! {

/// A compiler over the tokens of one source text.
pub struct Parser {
    tokens: Vec<Token>,
    /// How many tokens were read.
    current: usize,
    chunk: Chunk,
}

/// The compiler went from `pre` to `post` as `read` tells, and `got` tells
/// the same.
pub open spec fn follows(
    pre: &Parser,
    post: &Parser,
    got: Result<(), SyntaxError>,
    read: Compiled,
) -> bool {
    &&& post.wf()
    &&& post.tokens() == pre.tokens()
    &&& post.position() == pre.position() + read.consumed
    &&& post.chunk() == read.chunk
    &&& match got {
        Ok(_) => read.result is Ok,
        Err(error) => read.result == Err::<(), SyntaxError>(error),
    }
}

impl Parser {
    /// The tokens that the compiler reads.
    pub closed spec fn tokens(&self) -> Seq<TokenView> {
        token_views(self.tokens@)
    }

    /// How many tokens were read.
    pub closed spec fn position(&self) -> nat {
        self.current as nat
    }

    /// The chunk, with what was emitted so far.
    pub closed spec fn chunk(&self) -> ChunkView {
        self.chunk@
    }

    /// The position is inside the tokens or at their end.
    pub closed spec fn wf(&self) -> bool {
        self.current <= self.tokens@.len()
    }

    /// A compiler at the start of the tokens that `scanner` has still to
    /// hand out, with an empty chunk.
    pub fn new(scanner: Scanner) -> (parser: Self)
        requires
            scanner.wf(),
        ensures
            parser.wf(),
            parser.tokens() == scanner.remaining(),
            parser.position() == 0,
            parser.chunk() == compile::empty_chunk(),
    {
        Parser { tokens: scanner.scan_tokens(), current: 0, chunk: Chunk::new() }
    }

    /// Compiles the expression at the position.
    pub fn parse(&mut self) -> (got: Result<(), SyntaxError>)
        requires
            old(self).wf(),
        ensures
            follows(
                old(self),
                final(self),
                got,
                compile::expression(old(self).tokens(), old(self).position(), old(self).chunk()),
            ),
    {
        self.expression()
    }

    /// The chunk, with what was emitted.
    pub fn take_chunk(self) -> (chunk: Chunk)
        ensures
            chunk@ == self.chunk(),
    {
        self.chunk
    }

    /// The precedence of a token as a binary operator.
    fn get_precedence(token_type: &TokenType) -> (prec: u16)
        ensures
            prec == compile::precedence(token_type@),
    {
        match token_type {
            TokenType::Plus => TERM_PREC,
            TokenType::Minus => TERM_PREC,
            TokenType::Star => FACTOR_PREC,
            TokenType::Slash => FACTOR_PREC,
            TokenType::EqualEqual => EQUALITY_PREC,
            TokenType::BangEqual => EQUALITY_PREC,
            TokenType::Less => EQUALITY_PREC,
            TokenType::LessEqual => EQUALITY_PREC,
            TokenType::Greater => EQUALITY_PREC,
            TokenType::GreaterEqual => EQUALITY_PREC,
            _ => NONE_PREC,
        }
    }

    /// The kind of the token at the position.
    fn current(&self) -> (kind: TokenType)
        requires
            self.wf(),
        ensures
            kind@ == kind_at(self.tokens(), self.position()),
    {
        if self.current < self.tokens.len() {
            self.tokens[self.current].kind.duplicate()
        } else {
            TokenType::Eof
        }
    }

    /// The line of the token at the position.
    fn line(&self) -> (line: u32)
        requires
            self.wf(),
        ensures
            line == line_at(self.tokens(), self.position()),
    {
        if self.current < self.tokens.len() {
            self.tokens[self.current].line
        } else {
            0
        }
    }

    /// Reads one token, if one is left.
    fn advance(&mut self)
        requires
            old(self).wf(),
        ensures
            final(self).wf(),
            final(self).tokens() == old(self).tokens(),
            final(self).chunk() == old(self).chunk(),
            final(self).position() == if old(self).position() < old(self).tokens().len() {
                old(self).position() + 1
            } else {
                old(self).position()
            },
    {
        if self.current < self.tokens.len() {
            self.current += 1;
        }
    }

    /// Reads one token of kind `token_type`, or fails with `err`.
    fn consume(&mut self, token_type: TokenType, err: SyntaxError) -> (got: Result<(), SyntaxError>)
        requires
            old(self).wf(),
        ensures
            final(self).wf(),
            final(self).tokens() == old(self).tokens(),
            final(self).chunk() == old(self).chunk(),
            got is Ok == (kind_at(old(self).tokens(), old(self).position()) == token_type@),
            got is Err ==> got == Err::<(), SyntaxError>(err),
            got is Ok ==> got == Ok::<(), SyntaxError>(()),
            final(self).position() == if got is Ok && old(self).position() < old(self).tokens().len() {
                old(self).position() + 1
            } else {
                old(self).position()
            },
    {
        if self.current().same(&token_type) {
            self.advance();
            Ok(())
        } else {
            Err(err)
        }
    }

    fn emit(&mut self, code: Opcode, line: u32)
        requires
            old(self).wf(),
        ensures
            final(self).wf(),
            final(self).tokens() == old(self).tokens(),
            final(self).position() == old(self).position(),
            final(self).chunk() == old(self).chunk().push_code(code, line),
    {
        self.chunk.push_code(code, line);
    }

    fn emit_constant(&mut self, value: Value, line: u32)
        requires
            old(self).wf(),
        ensures
            final(self).wf(),
            final(self).tokens() == old(self).tokens(),
            final(self).position() == old(self).position(),
            final(self).chunk() == old(self).chunk().push_constant(value@, line),
    {
        self.chunk.push_constant(value, line);
    }

    /// A literal, a unary operator with its operand, or an expression in
    /// parentheses.
    fn parse_prefix(&mut self) -> (got: Result<(), SyntaxError>)
        requires
            old(self).wf(),
        ensures
            follows(
                old(self),
                final(self),
                got,
                compile::prefix(old(self).tokens(), old(self).position(), old(self).chunk()),
            ),
        decreases left(old(self).tokens(), old(self).position()), 1nat,
    {
        let line = self.line();
        match self.current() {
            TokenType::Number(value) => {
                self.advance();
                self.emit_constant(Value::Numeral(value), line);
                Ok(())
            },
            TokenType::String(value) => {
                self.advance();
                self.emit_constant(Value::String(value), line);
                Ok(())
            },
            TokenType::True => {
                self.advance();
                self.emit(Opcode::True, line);
                Ok(())
            },
            TokenType::False => {
                self.advance();
                self.emit(Opcode::False, line);
                Ok(())
            },
            TokenType::Nil => {
                self.advance();
                self.emit(Opcode::Nil, line);
                Ok(())
            },
            TokenType::Minus => self.parse_unary(Opcode::Negate),
            TokenType::Bang => self.parse_unary(Opcode::Not),
            TokenType::LeftParen => {
                self.advance();
                if let Err(error) = self.expression() {
                    return Err(error);
                }
                self.consume(TokenType::RightParen, SyntaxError::MissingRightParen)
            },
            _ => Err(SyntaxError::UnexpectedToken),
        }
    }

    /// The binary operators of the precedence `prec` at least that follow
    /// an operand, each with its right operand.
    fn parse_infix(&mut self, prec: u16) -> (got: Result<(), SyntaxError>)
        requires
            old(self).wf(),
        ensures
            follows(
                old(self),
                final(self),
                got,
                compile::infixes(
                    old(self).tokens(),
                    old(self).position(),
                    prec,
                    old(self).chunk(),
                ),
            ),
        decreases left(old(self).tokens(), old(self).position()), 0nat,
    {
        let operator = self.current();
        let line = self.line();
        let operator_prec = Self::get_precedence(&operator);
        if !(operator_prec > NONE_PREC && prec <= operator_prec) {
            return Ok(());
        }
        self.advance();
        // parse right
        if let Err(error) = self.parse_precedence(operator_prec + 1) {
            return Err(error);
        }
        match operator {
            TokenType::Plus => self.emit(Opcode::Add, line),
            TokenType::Minus => self.emit(Opcode::Subtract, line),
            TokenType::Star => self.emit(Opcode::Multiply, line),
            TokenType::Slash => self.emit(Opcode::Divide, line),
            TokenType::BangEqual => {
                self.emit(Opcode::Equal, line);
                self.emit(Opcode::Not, line);
            },
            TokenType::EqualEqual => {
                self.emit(Opcode::Equal, line);
            },
            TokenType::LessEqual => {
                self.emit(Opcode::Greater, line);
                self.emit(Opcode::Not, line);
            },
            TokenType::GreaterEqual => {
                self.emit(Opcode::Less, line);
                self.emit(Opcode::Not, line);
            },
            TokenType::Less => {
                self.emit(Opcode::Less, line);
            },
            TokenType::Greater => {
                self.emit(Opcode::Greater, line);
            },
            _ => {},
        }
        self.parse_infix(prec)
    }

    /// An expression whose binary operators all have the precedence `prec`
    /// at least.
    pub fn parse_precedence(&mut self, prec: u16) -> (got: Result<(), SyntaxError>)
        requires
            old(self).wf(),
        ensures
            follows(
                old(self),
                final(self),
                got,
                compile::parse_precedence(
                    old(self).tokens(),
                    old(self).position(),
                    prec,
                    old(self).chunk(),
                ),
            ),
        decreases left(old(self).tokens(), old(self).position()), 2nat,
    {
        if let Err(error) = self.parse_prefix() {
            return Err(error);
        }
        self.parse_infix(prec)
    }

    /// An expression.
    pub fn expression(&mut self) -> (got: Result<(), SyntaxError>)
        requires
            old(self).wf(),
        ensures
            follows(
                old(self),
                final(self),
                got,
                compile::expression(old(self).tokens(), old(self).position(), old(self).chunk()),
            ),
        decreases left(old(self).tokens(), old(self).position()), 3nat,
    {
        self.parse_precedence(ASSIGNMENT_PREC)
    }

    /// The unary operator at the position with its operand; `code` is the
    /// instruction of the operator.
    fn parse_unary(&mut self, code: Opcode) -> (got: Result<(), SyntaxError>)
        requires
            old(self).wf(),
        ensures
            follows(
                old(self),
                final(self),
                got,
                compile::unary(
                    old(self).tokens(),
                    old(self).position(),
                    old(self).chunk(),
                    code,
                ),
            ),
        decreases left(old(self).tokens(), old(self).position()), 0nat,
    {
        if self.current >= self.tokens.len() {
            return Err(SyntaxError::UnexpectedToken);
        }
        let line = self.line();
        self.advance();
        if let Err(error) = self.parse_precedence(UNARY_PREC) {
            return Err(error);
        }
        self.emit(code, line);
        Ok(())
    }
}

} // verus!
