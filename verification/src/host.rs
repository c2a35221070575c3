//! What the interpreters ask of the program that runs them.
//!
//! The numbers of the language are binary64 floating-point numbers.  An
//! interpreter carries a number as its 64 bits and never looks inside:
//! whatever has to be computed from a number, or written, or read from a
//! clock, it asks for with a [`Request`], and goes on when it is handed the
//! [`Reply`].

use vstd::prelude::*;

verus! {

/// A number of the language: the 64 bits of a binary64 floating-point number.
#[derive(Debug, Clone, Copy, PartialEq, Eq, Structural)]
pub struct Number {
    pub bits: u64,
}

/// The operations on two numbers that give a number.
#[derive(Debug, Clone, Copy, PartialEq, Eq, Structural)]
pub enum Arithmetic {
    Add,
    Subtract,
    Multiply,
    Divide,
}

/// The operations on two numbers that give a truth value.
#[derive(Debug, Clone, Copy, PartialEq, Eq, Structural)]
pub enum Comparison {
    Equal,
    NotEqual,
    Less,
    LessEqual,
    Greater,
    GreaterEqual,
}

/// What an interpreter asks for.
#[derive(Debug, Clone, PartialEq)]
pub enum Request {
    /// The number that the decimal digits `lexeme` spell.
    Parse { lexeme: String },
    /// The number `-operand`.
    Negate { operand: Number },
    /// The number `left operator right`.
    Calculate { operator: Arithmetic, left: Number, right: Number },
    /// Whether `left operator right` holds.
    Compare { operator: Comparison, left: Number, right: Number },
    /// The text that stands for `number`.
    Format { number: Number },
    /// The seconds that passed since the Unix epoch.
    Clock,
    /// That `line` be written to the standard output, and a line feed after it.
    Print { line: String },
}

/// The mathematical model of a [`Request`].
pub enum RequestView {
    Parse { lexeme: Seq<char> },
    Negate { operand: Number },
    Calculate { operator: Arithmetic, left: Number, right: Number },
    Compare { operator: Comparison, left: Number, right: Number },
    Format { number: Number },
    Clock,
    Print { line: Seq<char> },
}

impl View for Request {
    type V = RequestView;

    open spec fn view(&self) -> RequestView {
        match self {
            Request::Parse { lexeme } => RequestView::Parse { lexeme: lexeme@ },
            Request::Negate { operand } => RequestView::Negate { operand: *operand },
            Request::Calculate { operator, left, right } => RequestView::Calculate {
                operator: *operator,
                left: *left,
                right: *right,
            },
            Request::Compare { operator, left, right } => RequestView::Compare {
                operator: *operator,
                left: *left,
                right: *right,
            },
            Request::Format { number } => RequestView::Format { number: *number },
            Request::Clock => RequestView::Clock,
            Request::Print { line } => RequestView::Print { line: line@ },
        }
    }
}

/// The kinds of replies.
#[derive(Debug, Clone, Copy, PartialEq, Eq, Structural)]
pub enum Expected {
    Number,
    Bool,
    Text,
    Done,
}

impl RequestView {
    /// The kind of reply that answers the request.
    pub open spec fn expects(self) -> Expected {
        match self {
            RequestView::Parse { .. } => Expected::Number,
            RequestView::Negate { .. } => Expected::Number,
            RequestView::Calculate { .. } => Expected::Number,
            RequestView::Compare { .. } => Expected::Bool,
            RequestView::Format { .. } => Expected::Text,
            RequestView::Clock => Expected::Number,
            RequestView::Print { .. } => Expected::Done,
        }
    }
}

impl Request {
    /// The kind of reply that answers the request.
    pub fn expects(&self) -> (kind: Expected)
        ensures
            kind == self@.expects(),
    {
        match self {
            Request::Parse { .. } => Expected::Number,
            Request::Negate { .. } => Expected::Number,
            Request::Calculate { .. } => Expected::Number,
            Request::Compare { .. } => Expected::Bool,
            Request::Format { .. } => Expected::Text,
            Request::Clock => Expected::Number,
            Request::Print { .. } => Expected::Done,
        }
    }
}

/// What an interpreter is handed for a request.
#[derive(Debug, Clone, PartialEq)]
pub enum Reply {
    Number(Number),
    Bool(bool),
    Text(String),
    /// The request was carried out; there is nothing to hand back.
    Done,
}

/// The mathematical model of a [`Reply`].
pub enum ReplyView {
    Number(Number),
    Bool(bool),
    Text(Seq<char>),
    Done,
}

impl View for Reply {
    type V = ReplyView;

    open spec fn view(&self) -> ReplyView {
        match self {
            Reply::Number(number) => ReplyView::Number(*number),
            Reply::Bool(truth) => ReplyView::Bool(*truth),
            Reply::Text(text) => ReplyView::Text(text@),
            Reply::Done => ReplyView::Done,
        }
    }
}

impl ReplyView {
    /// The kind of the reply.
    pub open spec fn kind(self) -> Expected {
        match self {
            ReplyView::Number(_) => Expected::Number,
            ReplyView::Bool(_) => Expected::Bool,
            ReplyView::Text(_) => Expected::Text,
            ReplyView::Done => Expected::Done,
        }
    }
}

/// The model of a reply that may be missing.
pub open spec fn reply_view(reply: Option<Reply>) -> Option<ReplyView> {
    match reply {
        Some(reply) => Some(reply@),
        None => None,
    }
}

} // verus!
