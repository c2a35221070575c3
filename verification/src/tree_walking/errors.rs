//! The errors of the tree-walking branch.

use vstd::prelude::*;
use vstd::string::StringExecFns;

verus! {

/// What the parser can find wrong with a program.
#[derive(Debug, Clone, Copy, PartialEq, Eq, Structural)]
pub enum SyntaxError {
    MissingSemicolon,
    VariableDeclarationMissingIdentifier,
    VariableDeclarationMissingAssignment,
    LValueMustBeAnIdentifier,
    MissingColonInTernary,
    MissingRightParen,
    UnexpectedTokenInExpression,
    MissingRightBrace,
    MissingWhileConditionLeftParen,
    WhileBodyNotEnclosedInBlock,
    MissingIfConditionLeftParen,
    IfBodyNotEnclosedInBlock,
    ElseBodyNotEnclosedInBlock,
    MissingParametersDeclarationOpeningParen,
    MissingFunctionDeclarationIdentifier,
    ExpectedParameterIdentifier,
    MissingBodyOpeningBrace,
}

impl SyntaxError {
    /// The text of the message that tells of the error.
    pub open spec fn text(self) -> Seq<char> {
        match self {
            SyntaxError::MissingSemicolon => "';' expected at the end of a statement"@,
            SyntaxError::VariableDeclarationMissingIdentifier => "'var' should be followed by an identifier"@,
            SyntaxError::VariableDeclarationMissingAssignment => "declared variable must be initialized"@,
            SyntaxError::LValueMustBeAnIdentifier => "left side of an assignment must be an identifier"@,
            SyntaxError::MissingColonInTernary => "missing ':' in conditional expression"@,
            SyntaxError::MissingRightParen => "closing paren ')' was not found"@,
            SyntaxError::UnexpectedTokenInExpression => "unexpected token encountered when parsing an expression"@,
            SyntaxError::MissingRightBrace => "expected closing '}' after a block"@,
            SyntaxError::MissingWhileConditionLeftParen => "'while' condition must be enclosed in parens"@,
            SyntaxError::WhileBodyNotEnclosedInBlock => "'while' body must be enclosed in block"@,
            SyntaxError::MissingIfConditionLeftParen => "'if' condition must be enclosed in parens"@,
            SyntaxError::IfBodyNotEnclosedInBlock => "'if' body must be enclosed in block"@,
            SyntaxError::ElseBodyNotEnclosedInBlock => "'else' body must be enclosed in block"@,
            SyntaxError::MissingParametersDeclarationOpeningParen => "parameters must be enclosed in parens"@,
            SyntaxError::MissingFunctionDeclarationIdentifier => "missing function identifier"@,
            SyntaxError::ExpectedParameterIdentifier => "expected parameter identifier"@,
            SyntaxError::MissingBodyOpeningBrace => "missing function body opening brace"@,
        }
    }

    /// The message that tells of the error.
    pub fn message(self) -> (message: String)
        ensures
            message@ == self.text(),
    {
        match self {
            SyntaxError::MissingSemicolon => String::from_str(
                "';' expected at the end of a statement",
            ),
            SyntaxError::VariableDeclarationMissingIdentifier => String::from_str(
                "'var' should be followed by an identifier",
            ),
            SyntaxError::VariableDeclarationMissingAssignment => String::from_str(
                "declared variable must be initialized",
            ),
            SyntaxError::LValueMustBeAnIdentifier => String::from_str(
                "left side of an assignment must be an identifier",
            ),
            SyntaxError::MissingColonInTernary => String::from_str(
                "missing ':' in conditional expression",
            ),
            SyntaxError::MissingRightParen => String::from_str("closing paren ')' was not found"),
            SyntaxError::UnexpectedTokenInExpression => String::from_str(
                "unexpected token encountered when parsing an expression",
            ),
            SyntaxError::MissingRightBrace => String::from_str(
                "expected closing '}' after a block",
            ),
            SyntaxError::MissingWhileConditionLeftParen => String::from_str(
                "'while' condition must be enclosed in parens",
            ),
            SyntaxError::WhileBodyNotEnclosedInBlock => String::from_str(
                "'while' body must be enclosed in block",
            ),
            SyntaxError::MissingIfConditionLeftParen => String::from_str(
                "'if' condition must be enclosed in parens",
            ),
            SyntaxError::IfBodyNotEnclosedInBlock => String::from_str(
                "'if' body must be enclosed in block",
            ),
            SyntaxError::ElseBodyNotEnclosedInBlock => String::from_str(
                "'else' body must be enclosed in block",
            ),
            SyntaxError::MissingParametersDeclarationOpeningParen => String::from_str(
                "parameters must be enclosed in parens",
            ),
            SyntaxError::MissingFunctionDeclarationIdentifier => String::from_str(
                "missing function identifier",
            ),
            SyntaxError::ExpectedParameterIdentifier => String::from_str(
                "expected parameter identifier",
            ),
            SyntaxError::MissingBodyOpeningBrace => String::from_str(
                "missing function body opening brace",
            ),
        }
    }
}

/// What the resolver can find wrong with a program.
#[derive(Debug, Clone, PartialEq)]
pub enum ResolveError {
    /// A variable is read or assigned where no scope defines it.
    UndefinedVariable { name: String },
    /// A variable is read in the expression that initialises it.
    OwnInitializer { name: String },
}

/// The mathematical model of a [`ResolveError`].
pub enum ResolveErrorView {
    UndefinedVariable { name: Seq<char> },
    OwnInitializer { name: Seq<char> },
}

impl View for ResolveError {
    type V = ResolveErrorView;

    open spec fn view(&self) -> ResolveErrorView {
        match self {
            ResolveError::UndefinedVariable { name } => ResolveErrorView::UndefinedVariable {
                name: name@,
            },
            ResolveError::OwnInitializer { name } => ResolveErrorView::OwnInitializer {
                name: name@,
            },
        }
    }
}

impl ResolveErrorView {
    /// The text of the message that tells of the error.
    pub open spec fn text(self) -> Seq<char> {
        match self {
            ResolveErrorView::UndefinedVariable { name } => "variable must be defined before it's used: "@
                + name,
            ResolveErrorView::OwnInitializer { name } => "can't read local variable in its own initializer: "@
                + name,
        }
    }
}

impl ResolveError {
    /// The message that tells of the error.
    pub fn message(&self) -> (message: String)
        ensures
            message@ == self@.text(),
    {
        match self {
            ResolveError::UndefinedVariable { name } => String::from_str(
                "variable must be defined before it's used: ",
            ).concat(name.as_str()),
            ResolveError::OwnInitializer { name } => String::from_str(
                "can't read local variable in its own initializer: ",
            ).concat(name.as_str()),
        }
    }
}

/// The types of the values of the language.
#[derive(Debug, Clone, Copy, PartialEq, Eq, Structural)]
pub enum ValueType {
    Bool,
    Number,
    String,
    Nil,
    Function,
}

impl ValueType {
    /// The name of the type.
    pub open spec fn text(self) -> Seq<char> {
        match self {
            ValueType::Bool => "bool"@,
            ValueType::Number => "number"@,
            ValueType::String => "string"@,
            ValueType::Nil => "nil"@,
            ValueType::Function => "function"@,
        }
    }

    /// The name of the type.
    pub fn name(self) -> (name: String)
        ensures
            name@ == self.text(),
    {
        match self {
            ValueType::Bool => String::from_str("bool"),
            ValueType::Number => String::from_str("number"),
            ValueType::String => String::from_str("string"),
            ValueType::Nil => String::from_str("nil"),
            ValueType::Function => String::from_str("function"),
        }
    }
}

/// What can go wrong while a program runs.
#[derive(Debug, Clone, PartialEq)]
pub enum RuntimeError {
    /// An operator was applied to a value of another type than it takes.
    TypeError { expected: ValueType, given: ValueType },
    /// A variable was read that no frame holds at the distance resolved for it.
    UndefinedIdentifier { name: String },
    /// A variable was assigned for which no distance was resolved, or whose
    /// frame does not exist.
    AssignmentToUndeclaredVariable { identifier: String },
    /// Two values were compared for equality that are not two numbers, two
    /// strings or two truth values.
    NotComparable { left: ValueType, right: ValueType },
    /// A value was called that is no function.
    NotCallable { given: ValueType },
    /// A function was called with another number of arguments than it has
    /// parameters.
    ArityMismatch { expected: usize, given: usize },
    /// The reply handed in is not of the kind that was asked for, or one was
    /// handed in where none was asked for, or none where one was.
    UnexpectedReply,
}

/// The mathematical model of a [`RuntimeError`].
pub enum RuntimeErrorView {
    TypeError { expected: ValueType, given: ValueType },
    UndefinedIdentifier { name: Seq<char> },
    AssignmentToUndeclaredVariable { identifier: Seq<char> },
    NotComparable { left: ValueType, right: ValueType },
    NotCallable { given: ValueType },
    ArityMismatch { expected: usize, given: usize },
    UnexpectedReply,
}

impl View for RuntimeError {
    type V = RuntimeErrorView;

    open spec fn view(&self) -> RuntimeErrorView {
        match self {
            RuntimeError::TypeError { expected, given } => RuntimeErrorView::TypeError {
                expected: *expected,
                given: *given,
            },
            RuntimeError::UndefinedIdentifier { name } => RuntimeErrorView::UndefinedIdentifier {
                name: name@,
            },
            RuntimeError::AssignmentToUndeclaredVariable {
                identifier,
            } => RuntimeErrorView::AssignmentToUndeclaredVariable { identifier: identifier@ },
            RuntimeError::NotComparable { left, right } => RuntimeErrorView::NotComparable {
                left: *left,
                right: *right,
            },
            RuntimeError::NotCallable { given } => RuntimeErrorView::NotCallable { given: *given },
            RuntimeError::ArityMismatch { expected, given } => RuntimeErrorView::ArityMismatch {
                expected: *expected,
                given: *given,
            },
            RuntimeError::UnexpectedReply => RuntimeErrorView::UnexpectedReply,
        }
    }
}

} // verus!
