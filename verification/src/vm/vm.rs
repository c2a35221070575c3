//! The stack machine.
//!
//! The machine executes the instructions of a chunk in order, one per step.
//! A step that needs something of the host stops with a request, and the
//! next step takes the reply.

use crate::host::{Arithmetic, Comparison, Expected, Reply, ReplyView, Request, RequestView};
use crate::vm::chunk::{value_views, Chunk, ChunkView, Opcode, Value, ValueView};
use vstd::prelude::*;
use vstd::string::StringExecFns;

verus! {

/// What can go wrong while a chunk is executed.
#[derive(Debug, Clone, Copy, PartialEq, Eq, Structural)]
pub enum RuntimeError {
    /// An instruction takes a value from the stack, and the stack is empty.
    EmptyStack,
    /// An instruction takes a number, and is given another value.
    ExpectedNumber,
    /// An instruction loads a constant that the pool does not have.
    MissingConstant,
    /// The reply handed in is not of the kind that was asked for, or one was
    /// handed in where none was asked for, or none where one was.
    UnexpectedReply,
}

/// What the machine waits for.
pub enum Waiting {
    /// Nothing: the next step executes the next instruction.
    Nothing,
    /// A number or a truth value, which is pushed.
    Push { expected: Expected },
    /// The text of the left operand of a concatenation; `right` is the other.
    ConcatLeft { right: Value },
    /// The text of the right operand of a concatenation; `left` is the text
    /// of the other.
    ConcatRight { left: String },
    /// The text of a number to report.
    ReportText,
    /// That the host has written what was reported.
    Printed,
    /// Nothing any more: the chunk is over, or it failed.
    Stopped,
}

/// The mathematical model of a [`Waiting`].
pub enum WaitingView {
    Nothing,
    Push { expected: Expected },
    ConcatLeft { right: ValueView },
    ConcatRight { left: Seq<char> },
    ReportText,
    Printed,
    Stopped,
}

impl View for Waiting {
    type V = WaitingView;

    open spec fn view(&self) -> WaitingView {
        match self {
            Waiting::Nothing => WaitingView::Nothing,
            Waiting::Push { expected } => WaitingView::Push { expected: *expected },
            Waiting::ConcatLeft { right } => WaitingView::ConcatLeft { right: right@ },
            Waiting::ConcatRight { left } => WaitingView::ConcatRight { left: left@ },
            Waiting::ReportText => WaitingView::ReportText,
            Waiting::Printed => WaitingView::Printed,
            Waiting::Stopped => WaitingView::Stopped,
        }
    }
}

/// How far a step got.
#[derive(Debug, PartialEq)]
pub enum Progress {
    /// The step is made; the next can follow.
    Running,
    /// The host is asked for something; the next step takes its reply.
    Waiting(Request),
    /// The chunk is over.
    Finished,
    /// The chunk failed.
    Failed(RuntimeError),
}

/// The mathematical model of a [`Progress`].
pub enum ProgressView {
    Running,
    Waiting(RequestView),
    Finished,
    Failed(RuntimeError),
}

impl View for Progress {
    type V = ProgressView;

    open spec fn view(&self) -> ProgressView {
        match self {
            Progress::Running => ProgressView::Running,
            Progress::Waiting(request) => ProgressView::Waiting(request@),
            Progress::Finished => ProgressView::Finished,
            Progress::Failed(error) => ProgressView::Failed(*error),
        }
    }
}

/// The state of the machine.
pub struct MachineView {
    pub chunk: ChunkView,
    /// The index of the next instruction.
    pub pc: nat,
    /// The stack, its top last.
    pub stack: Seq<ValueView>,
    pub waiting: WaitingView,
}

/// What a step gives: the state after it, and how far it got.
pub struct Outcome {
    pub state: MachineView,
    pub progress: ProgressView,
}

impl MachineView {
    pub open spec fn with_waiting(self, waiting: WaitingView) -> MachineView {
        MachineView { chunk: self.chunk, pc: self.pc, stack: self.stack, waiting }
    }

    /// The state with `value` on top of the stack.
    pub open spec fn push(self, value: ValueView) -> MachineView {
        MachineView {
            chunk: self.chunk,
            pc: self.pc,
            stack: self.stack.push(value),
            waiting: self.waiting,
        }
    }

    /// The state without the top of the stack.
    pub open spec fn pop(self) -> MachineView {
        MachineView {
            chunk: self.chunk,
            pc: self.pc,
            stack: self.stack.drop_last(),
            waiting: self.waiting,
        }
    }

    /// The state behind the next instruction.
    pub open spec fn next(self) -> MachineView {
        MachineView {
            chunk: self.chunk,
            pc: self.pc + 1,
            stack: self.stack,
            waiting: self.waiting,
        }
    }

    /// The step is made.
    pub open spec fn go(self) -> Outcome {
        Outcome { state: self.with_waiting(WaitingView::Nothing), progress: ProgressView::Running }
    }

    /// The step is made, and pushed `value`.
    pub open spec fn give(self, value: ValueView) -> Outcome {
        self.push(value).go()
    }

    /// The chunk failed with `error`.
    pub open spec fn fail(self, error: RuntimeError) -> Outcome {
        Outcome {
            state: self.with_waiting(WaitingView::Stopped),
            progress: ProgressView::Failed(error),
        }
    }

    /// The host is asked for `request`, and the machine waits as `waiting` tells.
    pub open spec fn ask(self, request: RequestView, waiting: WaitingView) -> Outcome {
        Outcome { state: self.with_waiting(waiting), progress: ProgressView::Waiting(request) }
    }
}

/// The step that pushes the text `left` and the text of `right`, joined.
/// The text of a number is asked of the host.
pub open spec fn concat_right(state: MachineView, left: Seq<char>, right: ValueView) -> Outcome {
    match right {
        ValueView::Number(number) => state.ask(
            RequestView::Format { number },
            WaitingView::ConcatRight { left },
        ),
        _ => state.give(ValueView::String(left + right.text())),
    }
}

/// The step of `Add` on the operands `a` and `b`: the texts of the two,
/// joined, where one of them is a string, and the sum of two numbers.
pub open spec fn add_values(state: MachineView, a: ValueView, b: ValueView) -> Outcome {
    if a is String || b is String {
        match a {
            ValueView::Number(number) => state.ask(
                RequestView::Format { number },
                WaitingView::ConcatLeft { right: b },
            ),
            _ => concat_right(state, a.text(), b),
        }
    } else {
        match (a, b) {
            (ValueView::Number(left), ValueView::Number(right)) => state.ask(
                RequestView::Calculate { operator: Arithmetic::Add, left, right },
                WaitingView::Push { expected: Expected::Number },
            ),
            _ => state.fail(RuntimeError::ExpectedNumber),
        }
    }
}

/// The request that computes `code` of the numbers `left` and `right`, for
/// the five instructions that take two numbers.
pub open spec fn numeric(state: MachineView, code: Opcode, left: crate::host::Number, right: crate::host::Number) -> Outcome {
    match code {
        Opcode::Subtract => state.ask(
            RequestView::Calculate { operator: Arithmetic::Subtract, left, right },
            WaitingView::Push { expected: Expected::Number },
        ),
        Opcode::Multiply => state.ask(
            RequestView::Calculate { operator: Arithmetic::Multiply, left, right },
            WaitingView::Push { expected: Expected::Number },
        ),
        Opcode::Divide => state.ask(
            RequestView::Calculate { operator: Arithmetic::Divide, left, right },
            WaitingView::Push { expected: Expected::Number },
        ),
        Opcode::Less => state.ask(
            RequestView::Compare { operator: Comparison::Less, left, right },
            WaitingView::Push { expected: Expected::Bool },
        ),
        _ => state.ask(
            RequestView::Compare { operator: Comparison::Greater, left, right },
            WaitingView::Push { expected: Expected::Bool },
        ),
    }
}

/// The step that executes the instruction `code`, in the state behind it.
pub open spec fn execute(state: MachineView, code: Opcode) -> Outcome {
    match code {
        Opcode::Return => {
            if state.stack.len() == 0 {
                state.fail(RuntimeError::EmptyStack)
            } else {
                match state.stack.last() {
                    ValueView::Number(number) => state.pop().ask(
                        RequestView::Format { number },
                        WaitingView::ReportText,
                    ),
                    value => state.pop().ask(
                        RequestView::Print { line: value.text() },
                        WaitingView::Printed,
                    ),
                }
            }
        },
        Opcode::Constant { index } => {
            if index >= state.chunk.constants.len() {
                state.fail(RuntimeError::MissingConstant)
            } else {
                match state.chunk.constants[index as int] {
                    ValueView::Numeral(lexeme) => state.ask(
                        RequestView::Parse { lexeme },
                        WaitingView::Push { expected: Expected::Number },
                    ),
                    value => state.give(value),
                }
            }
        },
        Opcode::True => state.give(ValueView::Bool(true)),
        Opcode::False => state.give(ValueView::Bool(false)),
        Opcode::Nil => state.give(ValueView::Nil),
        Opcode::Negate => {
            if state.stack.len() == 0 {
                state.fail(RuntimeError::EmptyStack)
            } else {
                match state.stack.last() {
                    ValueView::Number(operand) => state.pop().ask(
                        RequestView::Negate { operand },
                        WaitingView::Push { expected: Expected::Number },
                    ),
                    _ => state.fail(RuntimeError::ExpectedNumber),
                }
            }
        },
        Opcode::Not => {
            if state.stack.len() == 0 {
                state.fail(RuntimeError::EmptyStack)
            } else {
                state.pop().give(ValueView::Bool(!state.stack.last().is_truthy()))
            }
        },
        Opcode::Equal => {
            if state.stack.len() == 0 {
                state.fail(RuntimeError::EmptyStack)
            } else if state.stack.len() == 1 {
                state.pop().fail(RuntimeError::EmptyStack)
            } else {
                state.pop().pop().give(
                    ValueView::Bool(
                        state.stack.last().is_truthy() == state.stack[state.stack.len()
                            - 2].is_truthy(),
                    ),
                )
            }
        },
        Opcode::Add => {
            if state.stack.len() == 0 {
                state.fail(RuntimeError::EmptyStack)
            } else if state.stack.len() == 1 {
                state.pop().fail(RuntimeError::EmptyStack)
            } else {
                add_values(
                    state.pop().pop(),
                    state.stack[state.stack.len() - 2],
                    state.stack.last(),
                )
            }
        },
        _ => {
            if state.stack.len() == 0 {
                state.fail(RuntimeError::EmptyStack)
            } else {
                match state.stack.last() {
                    ValueView::Number(right) => {
                        if state.stack.len() == 1 {
                            state.pop().fail(RuntimeError::EmptyStack)
                        } else {
                            match state.stack[state.stack.len() - 2] {
                                ValueView::Number(left) => numeric(
                                    state.pop().pop(),
                                    code,
                                    left,
                                    right,
                                ),
                                _ => state.pop().pop().fail(RuntimeError::ExpectedNumber),
                            }
                        }
                    },
                    _ => state.pop().fail(RuntimeError::ExpectedNumber),
                }
            }
        },
    }
}

/// One step of the machine.
///
/// A machine that waits for a reply takes `reply`, which must be there and
/// of the kind asked for.  Any other machine takes no reply, and executes
/// the next instruction; behind the last instruction, the chunk is over.
pub open spec fn step(state: MachineView, reply: Option<ReplyView>) -> Outcome {
    match state.waiting {
        WaitingView::Stopped => Outcome { state, progress: ProgressView::Finished },
        WaitingView::Nothing => {
            if reply is Some {
                state.fail(RuntimeError::UnexpectedReply)
            } else if state.pc >= state.chunk.code.len() {
                Outcome {
                    state: state.with_waiting(WaitingView::Stopped),
                    progress: ProgressView::Finished,
                }
            } else {
                execute(state.next(), state.chunk.code[state.pc as int])
            }
        },
        WaitingView::Push { expected } => match reply {
            Some(ReplyView::Number(number)) if expected == Expected::Number => state.give(
                ValueView::Number(number),
            ),
            Some(ReplyView::Bool(truth)) if expected == Expected::Bool => state.give(
                ValueView::Bool(truth),
            ),
            _ => state.fail(RuntimeError::UnexpectedReply),
        },
        WaitingView::ConcatLeft { right } => match reply {
            Some(ReplyView::Text(text)) => concat_right(state, text, right),
            _ => state.fail(RuntimeError::UnexpectedReply),
        },
        WaitingView::ConcatRight { left } => match reply {
            Some(ReplyView::Text(text)) => state.give(ValueView::String(left + text)),
            _ => state.fail(RuntimeError::UnexpectedReply),
        },
        WaitingView::ReportText => match reply {
            Some(ReplyView::Text(text)) => state.ask(
                RequestView::Print { line: text },
                WaitingView::Printed,
            ),
            _ => state.fail(RuntimeError::UnexpectedReply),
        },
        WaitingView::Printed => match reply {
            Some(ReplyView::Done) => state.go(),
            _ => state.fail(RuntimeError::UnexpectedReply),
        },
    }
}

/// The machine got to the state `post` with `progress`, as `outcome` tells.
pub open spec fn stepped(post: MachineView, progress: Progress, outcome: Outcome) -> bool {
    post == outcome.state && progress@ == outcome.progress
}

/// The stack machine over one chunk.
pub struct VM {
    chunk: Chunk,
    stack: Vec<Value>,
    pc: usize,
    waiting: Waiting,
}

impl View for VM {
    type V = MachineView;

    closed spec fn view(&self) -> MachineView {
        MachineView {
            chunk: self.chunk@,
            pc: self.pc as nat,
            stack: value_views(self.stack@),
            waiting: self.waiting@,
        }
    }
}

impl VM {
    /// A machine at the first instruction of `chunk`, with an empty stack.
    pub fn new(chunk: Chunk) -> (vm: Self)
        ensures
            vm@ == (MachineView {
                chunk: chunk@,
                pc: 0,
                stack: Seq::empty(),
                waiting: WaitingView::Nothing,
            }),
    {
        let vm = VM { stack: Vec::new(), chunk, pc: 0, waiting: Waiting::Nothing };
        assert(vm@.stack =~= Seq::<ValueView>::empty());
        vm
    }

    /// The stack, its top last.
    pub fn stack(&self) -> (stack: &Vec<Value>)
        ensures
            value_views(stack@) == self@.stack,
    {
        &self.stack
    }

    fn push(&mut self, value: Value)
        ensures
            final(self)@ == old(self)@.push(value@),
    {
        self.stack.push(value);
        assert(self@.stack =~= old(self)@.stack.push(value@));
    }

    fn pop(&mut self) -> (value: Option<Value>)
        ensures
            match value {
                Some(top) => old(self)@.stack.len() > 0 && top@ == old(self)@.stack.last()
                    && final(self)@ == old(self)@.pop(),
                None => old(self)@.stack.len() == 0 && final(self)@ == old(self)@,
            },
    {
        let value = self.stack.pop();
        assert(value is Some ==> self@.stack =~= old(self)@.stack.drop_last());
        value
    }

    fn go(&mut self) -> (progress: Progress)
        ensures
            stepped(final(self)@, progress, old(self)@.go()),
    {
        self.waiting = Waiting::Nothing;
        Progress::Running
    }

    fn give(&mut self, value: Value) -> (progress: Progress)
        ensures
            stepped(final(self)@, progress, old(self)@.give(value@)),
    {
        self.push(value);
        self.go()
    }

    fn fail(&mut self, error: RuntimeError) -> (progress: Progress)
        ensures
            stepped(final(self)@, progress, old(self)@.fail(error)),
    {
        self.waiting = Waiting::Stopped;
        Progress::Failed(error)
    }

    fn ask(&mut self, request: Request, waiting: Waiting) -> (progress: Progress)
        ensures
            stepped(final(self)@, progress, old(self)@.ask(request@, waiting@)),
    {
        self.waiting = waiting;
        Progress::Waiting(request)
    }

    /// The step that pushes the text `left` and the text of `right`, joined.
    fn concat_right(&mut self, left: String, right: Value) -> (progress: Progress)
        ensures
            stepped(final(self)@, progress, concat_right(old(self)@, left@, right@)),
    {
        match right {
            Value::Number(number) => self.ask(
                Request::Format { number },
                Waiting::ConcatRight { left },
            ),
            _ => {
                let text = right.text();
                self.give(Value::String(left.concat(text.as_str())))
            },
        }
    }

    /// The step of `Add` on the operands `a` and `b`.
    fn add(&mut self, a: Value, b: Value) -> (progress: Progress)
        ensures
            stepped(final(self)@, progress, add_values(old(self)@, a@, b@)),
    {
        let joins = match (&a, &b) {
            (Value::String(_), _) => true,
            (_, Value::String(_)) => true,
            _ => false,
        };
        if joins {
            match a {
                Value::Number(number) => self.ask(
                    Request::Format { number },
                    Waiting::ConcatLeft { right: b },
                ),
                _ => {
                    let text = a.text();
                    self.concat_right(text, b)
                },
            }
        } else {
            match (a, b) {
                (Value::Number(left), Value::Number(right)) => self.ask(
                    Request::Calculate { operator: Arithmetic::Add, left, right },
                    Waiting::Push { expected: Expected::Number },
                ),
                _ => self.fail(RuntimeError::ExpectedNumber),
            }
        }
    }

    /// The step that executes the instruction `opcode`; the machine is
    /// behind it already.
    fn execute(&mut self, opcode: Opcode) -> (progress: Progress)
        ensures
            stepped(final(self)@, progress, execute(old(self)@, opcode)),
    {
        match opcode {
            Opcode::Return => match self.pop() {
                None => self.fail(RuntimeError::EmptyStack),
                Some(Value::Number(number)) => self.ask(
                    Request::Format { number },
                    Waiting::ReportText,
                ),
                Some(value) => {
                    let line = value.text();
                    self.ask(Request::Print { line }, Waiting::Printed)
                },
            },
            Opcode::Constant { index: constant_index } => {
                let constant = match self.chunk.get_constant(constant_index) {
                    Some(value) => value.duplicate(),
                    None => {
                        return self.fail(RuntimeError::MissingConstant);
                    },
                };
                match constant {
                    Value::Numeral(lexeme) => self.ask(
                        Request::Parse { lexeme },
                        Waiting::Push { expected: Expected::Number },
                    ),
                    value => self.give(value),
                }
            },
            Opcode::True => self.give(Value::Bool(true)),
            Opcode::False => self.give(Value::Bool(false)),
            Opcode::Nil => self.give(Value::Nil),
            Opcode::Negate => {
                let count = self.stack.len();
                if count == 0 {
                    return self.fail(RuntimeError::EmptyStack);
                }
                let operand = match &self.stack[count - 1] {
                    Value::Number(n) => *n,
                    _ => {
                        return self.fail(RuntimeError::ExpectedNumber);
                    },
                };
                self.pop();
                self.ask(Request::Negate { operand }, Waiting::Push { expected: Expected::Number })
            },
            Opcode::Not => match self.pop() {
                None => self.fail(RuntimeError::EmptyStack),
                Some(value) => {
                    let v = value.is_truthy();
                    self.give(Value::Bool(!v))
                },
            },
            Opcode::Equal => {
                let a = match self.pop() {
                    Some(value) => value,
                    None => {
                        return self.fail(RuntimeError::EmptyStack);
                    },
                };
                let b = match self.pop() {
                    Some(value) => value,
                    None => {
                        return self.fail(RuntimeError::EmptyStack);
                    },
                };
                self.give(Value::Bool(a.is_truthy() == b.is_truthy()))
            },
            Opcode::Add => {
                let b = match self.pop() {
                    Some(value) => value,
                    None => {
                        return self.fail(RuntimeError::EmptyStack);
                    },
                };
                let a = match self.pop() {
                    Some(value) => value,
                    None => {
                        return self.fail(RuntimeError::EmptyStack);
                    },
                };
                self.add(a, b)
            },
            Opcode::Multiply | Opcode::Subtract | Opcode::Divide | Opcode::Less | Opcode::Greater => {
                let b = match self.pop() {
                    Some(Value::Number(b)) => b,
                    Some(_) => {
                        return self.fail(RuntimeError::ExpectedNumber);
                    },
                    None => {
                        return self.fail(RuntimeError::EmptyStack);
                    },
                };
                let a = match self.pop() {
                    Some(Value::Number(a)) => a,
                    Some(_) => {
                        return self.fail(RuntimeError::ExpectedNumber);
                    },
                    None => {
                        return self.fail(RuntimeError::EmptyStack);
                    },
                };
                match opcode {
                    Opcode::Subtract => self.ask(
                        Request::Calculate { operator: Arithmetic::Subtract, left: a, right: b },
                        Waiting::Push { expected: Expected::Number },
                    ),
                    Opcode::Multiply => self.ask(
                        Request::Calculate { operator: Arithmetic::Multiply, left: a, right: b },
                        Waiting::Push { expected: Expected::Number },
                    ),
                    Opcode::Divide => self.ask(
                        Request::Calculate { operator: Arithmetic::Divide, left: a, right: b },
                        Waiting::Push { expected: Expected::Number },
                    ),
                    Opcode::Less => self.ask(
                        Request::Compare { operator: Comparison::Less, left: a, right: b },
                        Waiting::Push { expected: Expected::Bool },
                    ),
                    _ => self.ask(
                        Request::Compare { operator: Comparison::Greater, left: a, right: b },
                        Waiting::Push { expected: Expected::Bool },
                    ),
                }
            },
        }
    }

    /// Makes one step.  `reply` is the reply to the request of the step
    /// before, where that step made one, and nothing else.
    pub fn interpret(&mut self, reply: Option<Reply>) -> (progress: Progress)
        ensures
            stepped(final(self)@, progress, step(old(self)@, crate::host::reply_view(reply))),
    {
        let mut waiting = Waiting::Stopped;
        core::mem::swap(&mut self.waiting, &mut waiting);
        assert(self@ == old(self)@.with_waiting(WaitingView::Stopped));
        match waiting {
            Waiting::Stopped => Progress::Finished,
            Waiting::Nothing => {
                if reply.is_some() {
                    return self.fail(RuntimeError::UnexpectedReply);
                }
                if self.pc >= self.chunk.code().len() {
                    return Progress::Finished;
                }
                let opcode = self.chunk.code()[self.pc];
                self.pc = self.pc + 1;
                self.waiting = Waiting::Nothing;
                self.execute(opcode)
            },
            Waiting::Push { expected } => match (reply, expected) {
                (Some(Reply::Number(number)), Expected::Number) => self.give(
                    Value::Number(number),
                ),
                (Some(Reply::Bool(truth)), Expected::Bool) => self.give(Value::Bool(truth)),
                _ => self.fail(RuntimeError::UnexpectedReply),
            },
            Waiting::ConcatLeft { right } => match reply {
                Some(Reply::Text(text)) => self.concat_right(text, right),
                _ => self.fail(RuntimeError::UnexpectedReply),
            },
            Waiting::ConcatRight { left } => match reply {
                Some(Reply::Text(text)) => self.give(Value::String(left.concat(text.as_str()))),
                _ => self.fail(RuntimeError::UnexpectedReply),
            },
            Waiting::ReportText => match reply {
                Some(Reply::Text(text)) => self.ask(
                    Request::Print { line: text },
                    Waiting::Printed,
                ),
                _ => self.fail(RuntimeError::UnexpectedReply),
            },
            Waiting::Printed => match reply {
                Some(Reply::Done) => self.go(),
                _ => self.fail(RuntimeError::UnexpectedReply),
            },
        }
    }
}

} // verus!
