//! The values of the tree-walking evaluator.

use crate::host::Number;
use crate::tree_walking::ast::{name_views, stmt_views, Stmt, StmtView};
use crate::tree_walking::errors::ValueType;
use vstd::prelude::*;
use vstd::string::StringExecFns;

verus! {

/// A function that a program declared.
pub struct Fun<'a> {
    pub parameters: &'a Vec<String>,
    pub body: &'a Vec<Stmt>,
    pub name: &'a String,
    /// The frame in which the function was declared.
    pub environment: usize,
}

/// The mathematical model of a [`Fun`].
pub struct FunView {
    pub parameters: Seq<Seq<char>>,
    pub body: Seq<StmtView>,
    pub name: Seq<char>,
    pub environment: nat,
}

impl<'a> View for Fun<'a> {
    type V = FunView;

    open spec fn view(&self) -> FunView {
        FunView {
            parameters: name_views(self.parameters@),
            body: stmt_views(self.body@),
            name: self.name@,
            environment: self.environment as nat,
        }
    }
}

/// What can be called.
pub enum Callable<'a> {
    /// The native function `clock`.
    NativeClock,
    /// The native function `println`.
    NativePrintln,
    /// A function of the program.
    Fun(Fun<'a>),
}

/// The mathematical model of a [`Callable`].
pub enum CallableView {
    NativeClock,
    NativePrintln,
    Fun(FunView),
}

impl<'a> View for Callable<'a> {
    type V = CallableView;

    open spec fn view(&self) -> CallableView {
        match self {
            Callable::NativeClock => CallableView::NativeClock,
            Callable::NativePrintln => CallableView::NativePrintln,
            Callable::Fun(fun) => CallableView::Fun(fun@),
        }
    }
}

/// A value.
pub enum Value<'a> {
    Number(Number),
    String(String),
    Bool(bool),
    Nil,
    Function(Callable<'a>),
}

/// The mathematical model of a [`Value`].
pub enum ValueView {
    Number(Number),
    String(Seq<char>),
    Bool(bool),
    Nil,
    Function(CallableView),
}

impl<'a> View for Value<'a> {
    type V = ValueView;

    open spec fn view(&self) -> ValueView {
        match self {
            Value::Number(number) => ValueView::Number(*number),
            Value::String(text) => ValueView::String(text@),
            Value::Bool(truth) => ValueView::Bool(*truth),
            Value::Nil => ValueView::Nil,
            Value::Function(callable) => ValueView::Function(callable@),
        }
    }
}

/// The models of the values of `values`, in order.
pub open spec fn value_views<'a>(values: Seq<Value<'a>>) -> Seq<ValueView> {
    Seq::new(values.len(), |i: int| values[i]@)
}

impl ValueView {
    /// The type of the value.
    pub open spec fn type_of(self) -> ValueType {
        match self {
            ValueView::Bool(_) => ValueType::Bool,
            ValueView::Number(_) => ValueType::Number,
            ValueView::String(_) => ValueType::String,
            ValueView::Nil => ValueType::Nil,
            ValueView::Function(_) => ValueType::Function,
        }
    }

    /// Whether the value counts as true: every value does but `false`.
    pub open spec fn is_truthy(self) -> bool {
        match self {
            ValueView::Bool(truth) => truth,
            _ => true,
        }
    }

    /// The text that stands for the value, for every value but a number.
    pub open spec fn text(self) -> Seq<char> {
        match self {
            ValueView::Number(_) => Seq::empty(),
            ValueView::String(text) => text,
            ValueView::Bool(truth) => if truth {
                "true"@
            } else {
                "false"@
            },
            ValueView::Nil => "nil"@,
            ValueView::Function(_) => "function"@,
        }
    }
}

impl<'a> Callable<'a> {
    /// A copy of the callable.
    pub fn duplicate(&self) -> (copy: Callable<'a>)
        ensures
            copy == *self,
    {
        match self {
            Callable::NativeClock => Callable::NativeClock,
            Callable::NativePrintln => Callable::NativePrintln,
            Callable::Fun(fun) => Callable::Fun(
                Fun {
                    parameters: fun.parameters,
                    body: fun.body,
                    name: fun.name,
                    environment: fun.environment,
                },
            ),
        }
    }
}

impl<'a> Value<'a> {
    /// A copy of the value.
    pub fn duplicate(&self) -> (copy: Value<'a>)
        ensures
            copy == *self,
    {
        match self {
            Value::Number(number) => Value::Number(*number),
            Value::String(text) => Value::String(text.clone()),
            Value::Bool(truth) => Value::Bool(*truth),
            Value::Nil => Value::Nil,
            Value::Function(callable) => Value::Function(callable.duplicate()),
        }
    }

    /// The type of the value.
    pub fn type_of(&self) -> (kind: ValueType)
        ensures
            kind == self@.type_of(),
    {
        match self {
            Value::Bool(_) => ValueType::Bool,
            Value::Number(_) => ValueType::Number,
            Value::String(_) => ValueType::String,
            Value::Nil => ValueType::Nil,
            Value::Function(_) => ValueType::Function,
        }
    }

    /// The name of the type of the value.
    pub fn type_as_string(&self) -> (name: String)
        ensures
            name@ == self@.type_of().text(),
    {
        self.type_of().name()
    }

    /// Whether the value counts as true: every value does but `false`.
    pub fn is_truthy(&self) -> (truthy: bool)
        ensures
            truthy == self@.is_truthy(),
    {
        match self {
            Value::Bool(inner) => *inner,
            _ => true,
        }
    }

    /// The text that stands for the value, for every value but a number.
    pub fn text(&self) -> (text: String)
        requires
            !(self@ is Number),
        ensures
            text@ == self@.text(),
    {
        match self {
            Value::Number(_) => String::new(),
            Value::String(text) => text.clone(),
            Value::Bool(truth) => if *truth {
                String::from_str("true")
            } else {
                String::from_str("false")
            },
            Value::Nil => String::from_str("nil"),
            Value::Function(_) => String::from_str("function"),
        }
    }
}

} // verus!
