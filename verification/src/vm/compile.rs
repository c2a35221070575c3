//! What the compiler makes of a sequence of tokens.
//!
//! The compiler reads an expression by precedence climbing and emits, in one
//! pass, the instructions that compute it on a stack: the instructions of the
//! operands first, the instruction of the operator last.
//!
//! ```text
//! NONE < ASSIGNMENT < EQUALITY < TERM < FACTOR < UNARY
//! ```

use crate::scanner::{TokenKind, TokenView};
use crate::vm::chunk::{ChunkView, Opcode, ValueView};
use vstd::prelude::*;

verus! {

/// What the compiler can find wrong with an expression.
#[derive(Debug, Clone, Copy, PartialEq, Eq, Structural)]
pub enum SyntaxError {
    /// A `(` is not closed by a `)`.
    MissingRightParen,
    /// A token stands where an expression must start, and starts none.
    UnexpectedToken,
}

pub const NONE_PREC: u16 = 0;

pub const ASSIGNMENT_PREC: u16 = 1;

pub const EQUALITY_PREC: u16 = 2;

pub const TERM_PREC: u16 = 3;

pub const FACTOR_PREC: u16 = 4;

pub const UNARY_PREC: u16 = 5;

/// What compiling a piece of an expression gave.
pub struct Compiled {
    /// Whether the piece was in order, or what was wrong with it.
    pub result: Result<(), SyntaxError>,
    /// How many tokens were read.
    pub consumed: nat,
    /// The chunk, with what was emitted.
    pub chunk: ChunkView,
}

impl Compiled {
    /// The same outcome, behind `consumed` tokens more.
    pub open spec fn after(self, consumed: nat) -> Compiled {
        Compiled { result: self.result, consumed: self.consumed + consumed, chunk: self.chunk }
    }
}

pub open spec fn done(consumed: nat, chunk: ChunkView) -> Compiled {
    Compiled { result: Ok(()), consumed, chunk }
}

pub open spec fn fail(error: SyntaxError, consumed: nat, chunk: ChunkView) -> Compiled {
    Compiled { result: Err(error), consumed, chunk }
}

/// The kind of the token at `pos`; behind the last token, `Eof`.
pub open spec fn kind_at(tokens: Seq<TokenView>, pos: nat) -> TokenKind {
    if pos < tokens.len() {
        tokens[pos as int].kind
    } else {
        TokenKind::Eof
    }
}

/// The line of the token at `pos`; behind the last token, 0.
pub open spec fn line_at(tokens: Seq<TokenView>, pos: nat) -> u32 {
    if pos < tokens.len() {
        tokens[pos as int].line
    } else {
        0
    }
}

/// How many tokens stand at `pos` and behind it.
pub open spec fn left(tokens: Seq<TokenView>, pos: nat) -> nat {
    if pos < tokens.len() {
        (tokens.len() - pos) as nat
    } else {
        0
    }
}

/// The precedence of a token as a binary operator; `NONE_PREC` for a token
/// that is none.
pub open spec fn precedence(kind: TokenKind) -> u16 {
    match kind {
        TokenKind::Plus => TERM_PREC,
        TokenKind::Minus => TERM_PREC,
        TokenKind::Star => FACTOR_PREC,
        TokenKind::Slash => FACTOR_PREC,
        TokenKind::EqualEqual => EQUALITY_PREC,
        TokenKind::BangEqual => EQUALITY_PREC,
        TokenKind::Less => EQUALITY_PREC,
        TokenKind::LessEqual => EQUALITY_PREC,
        TokenKind::Greater => EQUALITY_PREC,
        TokenKind::GreaterEqual => EQUALITY_PREC,
        _ => NONE_PREC,
    }
}

/// The chunk with the instructions of the binary operator `kind` at its
/// end.  `!=`, `<=` and `>=` are the negations of `==`, `>` and `<`.
pub open spec fn emit_operator(chunk: ChunkView, kind: TokenKind, line: u32) -> ChunkView {
    match kind {
        TokenKind::Plus => chunk.push_code(Opcode::Add, line),
        TokenKind::Minus => chunk.push_code(Opcode::Subtract, line),
        TokenKind::Star => chunk.push_code(Opcode::Multiply, line),
        TokenKind::Slash => chunk.push_code(Opcode::Divide, line),
        TokenKind::BangEqual => chunk.push_code(Opcode::Equal, line).push_code(Opcode::Not, line),
        TokenKind::EqualEqual => chunk.push_code(Opcode::Equal, line),
        TokenKind::LessEqual => chunk.push_code(Opcode::Greater, line).push_code(
            Opcode::Not,
            line,
        ),
        TokenKind::GreaterEqual => chunk.push_code(Opcode::Less, line).push_code(
            Opcode::Not,
            line,
        ),
        TokenKind::Less => chunk.push_code(Opcode::Less, line),
        TokenKind::Greater => chunk.push_code(Opcode::Greater, line),
        _ => chunk,
    }
}

/// A literal, a unary operator with its operand, or an expression in
/// parentheses, at `pos`.
pub open spec fn prefix(tokens: Seq<TokenView>, pos: nat, chunk: ChunkView) -> Compiled
    decreases left(tokens, pos), 1nat,
{
    let line = line_at(tokens, pos);
    match kind_at(tokens, pos) {
        TokenKind::Number(lexeme) => done(1, chunk.push_constant(ValueView::Numeral(lexeme), line)),
        TokenKind::String(text) => done(1, chunk.push_constant(ValueView::String(text), line)),
        TokenKind::True => done(1, chunk.push_code(Opcode::True, line)),
        TokenKind::False => done(1, chunk.push_code(Opcode::False, line)),
        TokenKind::Nil => done(1, chunk.push_code(Opcode::Nil, line)),
        TokenKind::Minus => unary(tokens, pos, chunk, Opcode::Negate),
        TokenKind::Bang => unary(tokens, pos, chunk, Opcode::Not),
        TokenKind::LeftParen => {
            let inner = parse_precedence(tokens, pos + 1, ASSIGNMENT_PREC, chunk);
            match inner.result {
                Err(error) => inner.after(1),
                Ok(_) => {
                    if kind_at(tokens, pos + 1 + inner.consumed) is RightParen {
                        inner.after(2)
                    } else {
                        fail(SyntaxError::MissingRightParen, 1 + inner.consumed, inner.chunk)
                    }
                },
            }
        },
        _ => fail(SyntaxError::UnexpectedToken, 0, chunk),
    }
}

/// The unary operator at `pos` with its operand; `code` is the instruction
/// of the operator.
pub open spec fn unary(tokens: Seq<TokenView>, pos: nat, chunk: ChunkView, code: Opcode) -> Compiled
    decreases left(tokens, pos), 0nat,
{
    if pos >= tokens.len() {
        fail(SyntaxError::UnexpectedToken, 0, chunk)
    } else {
        let operand = parse_precedence(tokens, pos + 1, UNARY_PREC, chunk);
        match operand.result {
            Err(error) => operand.after(1),
            Ok(_) => done(
                1 + operand.consumed,
                operand.chunk.push_code(code, line_at(tokens, pos)),
            ),
        }
    }
}

/// An expression at `pos` whose binary operators all have the precedence
/// `prec` at least.
pub open spec fn parse_precedence(tokens: Seq<TokenView>, pos: nat, prec: u16, chunk: ChunkView) -> Compiled
    decreases left(tokens, pos), 2nat,
{
    let first = prefix(tokens, pos, chunk);
    match first.result {
        Err(error) => first,
        Ok(_) => infixes(tokens, pos + first.consumed, prec, first.chunk).after(first.consumed),
    }
}

/// The binary operators of the precedence `prec` at least that follow an
/// operand, each with its right operand.  An operator takes as its right
/// operand what binds tighter than itself, so that operators of one
/// precedence associate to the left.
pub open spec fn infixes(tokens: Seq<TokenView>, pos: nat, prec: u16, chunk: ChunkView) -> Compiled
    decreases left(tokens, pos), 0nat,
{
    let kind = kind_at(tokens, pos);
    if precedence(kind) > NONE_PREC && prec <= precedence(kind) {
        let right = parse_precedence(tokens, pos + 1, (precedence(kind) + 1) as u16, chunk);
        match right.result {
            Err(error) => right.after(1),
            Ok(_) => infixes(
                tokens,
                pos + 1 + right.consumed,
                prec,
                emit_operator(right.chunk, kind, line_at(tokens, pos)),
            ).after(1 + right.consumed),
        }
    } else {
        done(0, chunk)
    }
}

/// An expression at `pos`.
pub open spec fn expression(tokens: Seq<TokenView>, pos: nat, chunk: ChunkView) -> Compiled {
    parse_precedence(tokens, pos, ASSIGNMENT_PREC, chunk)
}

/// The chunk that holds nothing.
pub open spec fn empty_chunk() -> ChunkView {
    ChunkView { constants: Seq::empty(), code: Seq::empty(), lines: Seq::empty() }
}

/// What compiling the expression at the start of `tokens` gives.
pub open spec fn compile(tokens: Seq<TokenView>) -> Compiled {
    expression(tokens, 0, empty_chunk())
}

} // verus!
