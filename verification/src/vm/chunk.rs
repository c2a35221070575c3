//! Chunks of bytecode.

use crate::host::Number;
use vstd::prelude::*;
use vstd::string::StringExecFns;

verus! {

/// An instruction of the stack machine.
#[derive(Debug, Clone, Copy, PartialEq, Eq, Structural)]
pub enum Opcode {
    Return,
    Constant { index: usize },
    Not,
    True,
    False,
    Nil,
    Equal,
    Greater,
    Less,
    Negate,
    Add,
    Multiply,
    Subtract,
    Divide,
}

/// A value of the stack machine.
#[derive(Debug, Clone, PartialEq)]
pub enum Value {
    Number(Number),
    /// A number as the digits that were written, in the pool of constants
    /// of a chunk.  The machine has it converted when it loads the constant.
    Numeral(String),
    String(String),
    Bool(bool),
    Nil,
}

/// The mathematical model of a [`Value`].
pub enum ValueView {
    Number(Number),
    Numeral(Seq<char>),
    String(Seq<char>),
    Bool(bool),
    Nil,
}

impl View for Value {
    type V = ValueView;

    open spec fn view(&self) -> ValueView {
        match self {
            Value::Number(number) => ValueView::Number(*number),
            Value::Numeral(lexeme) => ValueView::Numeral(lexeme@),
            Value::String(text) => ValueView::String(text@),
            Value::Bool(truth) => ValueView::Bool(*truth),
            Value::Nil => ValueView::Nil,
        }
    }
}

/// The models of the values of `values`, in order.
pub open spec fn value_views(values: Seq<Value>) -> Seq<ValueView> {
    Seq::new(values.len(), |i: int| values[i]@)
}

impl ValueView {
    /// Whether the value counts as true: every value does but `nil` and `false`.
    pub open spec fn is_truthy(self) -> bool {
        match self {
            ValueView::Nil => false,
            ValueView::Bool(truth) => truth,
            _ => true,
        }
    }

    /// The text that stands for the value, for every value but a number.
    pub open spec fn text(self) -> Seq<char> {
        match self {
            ValueView::Number(_) => Seq::empty(),
            ValueView::Numeral(lexeme) => lexeme,
            ValueView::String(text) => text,
            ValueView::Bool(truth) => if truth {
                "true"@
            } else {
                "false"@
            },
            ValueView::Nil => "nil"@,
        }
    }
}

impl Value {
    /// Whether the value counts as true: every value does but `nil` and `false`.
    pub fn is_truthy(&self) -> (truthy: bool)
        ensures
            truthy == self@.is_truthy(),
    {
        match self {
            Value::Nil => false,
            Value::Bool(v) => *v,
            _ => true,
        }
    }

    /// A copy of the value.
    pub fn duplicate(&self) -> (copy: Value)
        ensures
            copy == *self,
    {
        match self {
            Value::Number(number) => Value::Number(*number),
            Value::Numeral(lexeme) => Value::Numeral(lexeme.clone()),
            Value::String(text) => Value::String(text.clone()),
            Value::Bool(truth) => Value::Bool(*truth),
            Value::Nil => Value::Nil,
        }
    }

    /// The text that stands for the value, for every value but a number.
    pub fn text(&self) -> (text: String)
        requires
            !(self@ is Number),
        ensures
            text@ == self@.text(),
    {
        match self {
            Value::Number(_) => String::new(),
            Value::Numeral(lexeme) => lexeme.clone(),
            Value::String(text) => text.clone(),
            Value::Bool(truth) => if *truth {
                String::from_str("true")
            } else {
                String::from_str("false")
            },
            Value::Nil => String::from_str("nil"),
        }
    }
}

/// A chunk: instructions, the source line of each, and a pool of constants.
pub struct Chunk {
    constants: Vec<Value>,
    code: Vec<Opcode>,
    lines: Vec<u32>,
}

/// The mathematical model of a [`Chunk`].
pub struct ChunkView {
    pub constants: Seq<ValueView>,
    pub code: Seq<Opcode>,
    pub lines: Seq<u32>,
}

impl ChunkView {
    /// The chunk with the instruction `code` of line `line` at its end.
    pub open spec fn push_code(self, code: Opcode, line: u32) -> ChunkView {
        ChunkView {
            constants: self.constants,
            code: self.code.push(code),
            lines: self.lines.push(line),
        }
    }

    /// The chunk with `value` at the end of its pool, and at the end of its
    /// instructions the one of line `line` that loads `value`.
    pub open spec fn push_constant(self, value: ValueView, line: u32) -> ChunkView {
        ChunkView {
            constants: self.constants.push(value),
            code: self.code.push(Opcode::Constant { index: self.constants.len() as usize }),
            lines: self.lines.push(line),
        }
    }

    /// The chunk has a line for every instruction.
    pub open spec fn wf(self) -> bool {
        self.code.len() == self.lines.len()
    }
}

impl View for Chunk {
    type V = ChunkView;

    closed spec fn view(&self) -> ChunkView {
        ChunkView { constants: value_views(self.constants@), code: self.code@, lines: self.lines@ }
    }
}

impl Chunk {
    /// A chunk without instructions and constants.
    pub fn new() -> (chunk: Self)
        ensures
            chunk@ == (ChunkView {
                constants: Seq::empty(),
                code: Seq::empty(),
                lines: Seq::empty(),
            }),
    {
        let chunk = Chunk { code: Vec::new(), constants: Vec::new(), lines: Vec::new() };
        assert(chunk@.constants =~= Seq::<ValueView>::empty());
        chunk
    }

    /// Adds `value` to the pool, and the instruction that loads it.
    pub fn push_constant(&mut self, value: Value, line: u32)
        ensures
            final(self)@ == old(self)@.push_constant(value@, line),
    {
        let constant_index = self.constants.len();
        self.constants.push(value);
        assert(value_views(self.constants@) =~= value_views(old(self).constants@).push(value@));
        self.push_code(Opcode::Constant { index: constant_index }, line);
    }

    /// The constant `index` of the pool, if the pool has that many.
    pub fn get_constant(&self, index: usize) -> (value: Option<&Value>)
        ensures
            match value {
                Some(found) => index < self@.constants.len()
                    && found@ == self@.constants[index as int],
                None => index >= self@.constants.len(),
            },
    {
        if index < self.constants.len() {
            Some(&self.constants[index])
        } else {
            None
        }
    }

    /// Adds the instruction `code`, which stems from the line `line`.
    pub fn push_code(&mut self, code: Opcode, line: u32)
        ensures
            final(self)@ == old(self)@.push_code(code, line),
    {
        self.code.push(code);
        self.lines.push(line);
    }

    /// The instructions, in order.
    pub fn code(&self) -> (code: &Vec<Opcode>)
        ensures
            code@ == self@.code,
    {
        &self.code
    }

    /// The source lines of the instructions, in order.
    pub fn lines(&self) -> (lines: &Vec<u32>)
        ensures
            lines@ == self@.lines,
    {
        &self.lines
    }

    /// The pool of constants.
    pub fn constants(&self) -> (constants: &Vec<Value>)
        ensures
            value_views(constants@) == self@.constants,
    {
        &self.constants
    }
}

} // verus!
