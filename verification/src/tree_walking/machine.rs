//! The steps of the tree-walking evaluator, as functions on its state.
//!
//! The evaluator is a machine.  Its state is the frames of the run, what it
//! is about to do (the control) and a stack of what is left to do afterwards
//! (the continuations).  One step looks at the control, or hands the result
//! of the control to the continuation on top of the stack.  A step that
//! needs something of the host stops with a request, and the next step
//! takes the reply.

use crate::host::{Arithmetic, Comparison, Expected, ReplyView, RequestView};
use crate::tree_walking::ast::{
    BinaryOperator, ExprView, LiteralView, StmtView, UnaryOperator,
};
use crate::tree_walking::environment::{ancestor, bind, extend, lookup, FrameView};
use crate::tree_walking::errors::{RuntimeErrorView, ValueType};
use crate::tree_walking::value::{CallableView, FunView, ValueView};
use vstd::prelude::*;

verus! {

/// What the machine is about to do.
pub enum ControlView {
    /// Evaluate `expression` in the frame `environment`.
    Evaluate { expression: ExprView, environment: nat },
    /// Execute `statement` in the frame `environment`.
    Execute { statement: StmtView, environment: nat },
    /// Hand `value` to the continuation on top of the stack.
    Return { value: ValueView },
    /// A statement is over: go on with the continuation on top of the stack.
    Done,
    /// Write `values[next..]` behind `line`, for `println`.
    Print { values: Seq<ValueView>, next: nat, line: Seq<char> },
    /// Take the reply to the request that the last step made.
    Pending { expected: Expected },
    /// Nothing: the program is over, or it failed.
    Stopped,
}

/// What is left to do once the control has given its result.
pub enum KontView {
    /// Apply `operator` to the value.
    Unary { operator: UnaryOperator },
    /// The value is the left operand of `operator`; `right` is the other.
    BinaryLeft { operator: BinaryOperator, right: ExprView, environment: nat },
    /// The value is the right operand of `operator`; `left` is the other.
    BinaryRight { operator: BinaryOperator, left: ValueView },
    /// The value is the right operand of `and` or `or`.
    Truthy,
    /// The value is the condition of a conditional expression.
    Ternary { true_case: ExprView, false_case: ExprView, environment: nat },
    /// The value is assigned to `name`.
    Assign { name: Seq<char>, id: nat, environment: nat },
    /// The value is called with `arguments`.
    Callee { arguments: Seq<ExprView>, environment: nat },
    /// The value is the argument behind `values` in a call of `callee`.
    Arguments {
        callee: CallableView,
        arguments: Seq<ExprView>,
        values: Seq<ValueView>,
        environment: nat,
    },
    /// The value is the text of the number `values[next]`, to write behind `line`.
    PrintText { values: Seq<ValueView>, next: nat, line: Seq<char> },
    /// The value is dropped: an expression statement is over.
    Discard,
    /// The value is bound to `name`: a declaration is over.
    Declare { name: Seq<char>, environment: nat },
    /// The value is the condition of a loop.
    WhileTest { condition: ExprView, statement: StmtView, environment: nat },
    /// The body of a loop is over.
    WhileBody { condition: ExprView, statement: StmtView, environment: nat },
    /// The value is the condition of an `if`.
    IfTest { true_case: StmtView, false_case: Option<StmtView>, environment: nat },
    /// The statements `statements[next..]` are left to execute.
    Sequence { statements: Seq<StmtView>, next: nat, environment: nat },
    /// The body of a function is over: the call gives `nil`.
    Finish,
}

/// How far a step got.
pub enum ProgressView {
    /// The step is made; the next can follow.
    Running,
    /// The host is asked for something; the next step takes its reply.
    Waiting(RequestView),
    /// The program is over.
    Finished,
    /// The program failed.
    Failed(RuntimeErrorView),
}

/// The state of the machine.
pub struct MachineView {
    /// The distances of the uses and assignments of the program.
    pub locals: Map<usize, usize>,
    pub frames: Seq<FrameView>,
    pub control: ControlView,
    /// The continuations, the next one last.
    pub stack: Seq<KontView>,
}

/// What a step gives: the state after it, and how far it got.
pub struct Outcome {
    pub state: MachineView,
    pub progress: ProgressView,
}

impl MachineView {
    /// The state with `control` as its control.
    pub open spec fn with_control(self, control: ControlView) -> MachineView {
        MachineView { locals: self.locals, frames: self.frames, control, stack: self.stack }
    }

    /// The state with `frames` as its frames.
    pub open spec fn with_frames(self, frames: Seq<FrameView>) -> MachineView {
        MachineView { locals: self.locals, frames, control: self.control, stack: self.stack }
    }

    /// The state with `kont` on top of its stack.
    pub open spec fn push(self, kont: KontView) -> MachineView {
        MachineView {
            locals: self.locals,
            frames: self.frames,
            control: self.control,
            stack: self.stack.push(kont),
        }
    }

    /// The state without the continuation on top of its stack.
    pub open spec fn pop(self) -> MachineView {
        MachineView {
            locals: self.locals,
            frames: self.frames,
            control: self.control,
            stack: self.stack.drop_last(),
        }
    }

    /// The step is made, and the machine goes on with `control`.
    pub open spec fn go(self, control: ControlView) -> Outcome {
        Outcome { state: self.with_control(control), progress: ProgressView::Running }
    }

    /// The step is made, and gave `value`.
    pub open spec fn give(self, value: ValueView) -> Outcome {
        self.go(ControlView::Return { value })
    }

    /// The program failed with `error`.
    pub open spec fn fail(self, error: RuntimeErrorView) -> Outcome {
        Outcome {
            state: self.with_control(ControlView::Stopped),
            progress: ProgressView::Failed(error),
        }
    }

    /// The host is asked for `request`.
    pub open spec fn ask(self, request: RequestView) -> Outcome {
        Outcome {
            state: self.with_control(ControlView::Pending { expected: request.expects() }),
            progress: ProgressView::Waiting(request),
        }
    }
}

/// The distance resolved for the use or the assignment `id`, if one was.
pub open spec fn distance_of(locals: Map<usize, usize>, id: nat) -> Option<nat> {
    if id <= usize::MAX && locals.contains_key(id as usize) {
        Some(locals[id as usize] as nat)
    } else {
        None
    }
}

/// The first step of the evaluation of `expression` in the frame `environment`.
pub open spec fn evaluate(state: MachineView, expression: ExprView, environment: nat) -> Outcome {
    match expression {
        ExprView::Unary { operator, expr } => state.push(KontView::Unary { operator }).go(
            ControlView::Evaluate { expression: *expr, environment },
        ),
        ExprView::Binary { operator, left, right } => state.push(
            KontView::BinaryLeft { operator, right: *right, environment },
        ).go(ControlView::Evaluate { expression: *left, environment }),
        ExprView::Ternary { conditional, true_case, false_case } => state.push(
            KontView::Ternary { true_case: *true_case, false_case: *false_case, environment },
        ).go(ControlView::Evaluate { expression: *conditional, environment }),
        ExprView::Grouping { expr } => state.go(
            ControlView::Evaluate { expression: *expr, environment },
        ),
        ExprView::Literal { value } => match value {
            LiteralView::True => state.give(ValueView::Bool(true)),
            LiteralView::False => state.give(ValueView::Bool(false)),
            LiteralView::Nil => state.give(ValueView::Nil),
            LiteralView::String { value } => state.give(ValueView::String(value)),
            LiteralView::Number { lexeme } => state.ask(RequestView::Parse { lexeme }),
            LiteralView::Identifier { name, id } => match distance_of(state.locals, id) {
                Some(distance) => match lookup(state.frames, environment, name, distance) {
                    Some(value) => state.give(value),
                    None => state.fail(RuntimeErrorView::UndefinedIdentifier { name }),
                },
                None => state.fail(RuntimeErrorView::UndefinedIdentifier { name }),
            },
        },
        ExprView::Assignment { name, expression, id } => state.push(
            KontView::Assign { name, id, environment },
        ).go(ControlView::Evaluate { expression: *expression, environment }),
        ExprView::Call { function, arguments } => state.push(
            KontView::Callee { arguments, environment },
        ).go(ControlView::Evaluate { expression: *function, environment }),
    }
}

/// The first step of the execution of `statement` in the frame `environment`.
pub open spec fn execute(state: MachineView, statement: StmtView, environment: nat) -> Outcome {
    match statement {
        StmtView::Expression { expression } => state.push(KontView::Discard).go(
            ControlView::Evaluate { expression, environment },
        ),
        StmtView::Declaration { name, initializer } => state.push(
            KontView::Declare { name, environment },
        ).go(ControlView::Evaluate { expression: initializer, environment }),
        StmtView::FunDeclaration { name, parameters, body } => state.with_frames(
            bind(
                state.frames,
                environment,
                name,
                ValueView::Function(
                    CallableView::Fun(FunView { parameters, body, name, environment }),
                ),
            ),
        ).go(ControlView::Done),
        StmtView::Block { statements } => state.with_frames(
            extend(state.frames, Some(environment)),
        ).push(
            KontView::Sequence { statements, next: 0, environment: state.frames.len() },
        ).go(ControlView::Done),
        StmtView::While { condition, statement } => state.push(
            KontView::WhileTest { condition, statement: *statement, environment },
        ).go(ControlView::Evaluate { expression: condition, environment }),
        StmtView::If { condition, true_case, false_case } => state.push(
            KontView::IfTest {
                true_case: *true_case,
                false_case: match false_case {
                    Some(statement) => Some(*statement),
                    None => None,
                },
                environment,
            },
        ).go(ControlView::Evaluate { expression: condition, environment }),
    }
}

/// The request that computes the arithmetic `operator`, for the four
/// operators that are arithmetic.
pub open spec fn arithmetic_of(operator: BinaryOperator) -> Option<Arithmetic> {
    match operator {
        BinaryOperator::Plus => Some(Arithmetic::Add),
        BinaryOperator::Minus => Some(Arithmetic::Subtract),
        BinaryOperator::Star => Some(Arithmetic::Multiply),
        BinaryOperator::Slash => Some(Arithmetic::Divide),
        _ => None,
    }
}

/// The comparison of numbers that `operator` stands for, for the six
/// operators that compare.
pub open spec fn comparison_of(operator: BinaryOperator) -> Option<Comparison> {
    match operator {
        BinaryOperator::EqualEqual => Some(Comparison::Equal),
        BinaryOperator::BangEqual => Some(Comparison::NotEqual),
        BinaryOperator::Less => Some(Comparison::Less),
        BinaryOperator::LessEqual => Some(Comparison::LessEqual),
        BinaryOperator::Greater => Some(Comparison::Greater),
        BinaryOperator::GreaterEqual => Some(Comparison::GreaterEqual),
        _ => None,
    }
}

/// What `value` is where a truth value is asked for by `and` and `or`: the
/// value itself where it counts as true, and `false` where it does not.
pub open spec fn truthy_or_false(value: ValueView) -> ValueView {
    if value.is_truthy() {
        value
    } else {
        ValueView::Bool(false)
    }
}

/// The step that applies `operator` to the values `left` and `right`.
///
/// `,` gives the right value.  `==` and `!=` take two numbers, two strings
/// or two truth values.  The other operators take two numbers.  Whatever is
/// computed from two numbers is asked of the host.
pub open spec fn binary(
    state: MachineView,
    operator: BinaryOperator,
    left: ValueView,
    right: ValueView,
) -> Outcome {
    match operator {
        BinaryOperator::Comma => state.give(right),
        BinaryOperator::And | BinaryOperator::Or => state.give(truthy_or_false(right)),
        BinaryOperator::EqualEqual | BinaryOperator::BangEqual => match (left, right) {
            (ValueView::Number(a), ValueView::Number(b)) => state.ask(
                RequestView::Compare { operator: comparison_of(operator)->0, left: a, right: b },
            ),
            (ValueView::String(a), ValueView::String(b)) => state.give(
                ValueView::Bool((a == b) == (operator == BinaryOperator::EqualEqual)),
            ),
            (ValueView::Bool(a), ValueView::Bool(b)) => state.give(
                ValueView::Bool((a == b) == (operator == BinaryOperator::EqualEqual)),
            ),
            _ => state.fail(
                RuntimeErrorView::NotComparable { left: left.type_of(), right: right.type_of() },
            ),
        },
        _ => match (left, right) {
            (ValueView::Number(a), ValueView::Number(b)) => match arithmetic_of(operator) {
                Some(arithmetic) => state.ask(
                    RequestView::Calculate { operator: arithmetic, left: a, right: b },
                ),
                None => state.ask(
                    RequestView::Compare {
                        operator: comparison_of(operator)->0,
                        left: a,
                        right: b,
                    },
                ),
            },
            (ValueView::Number(_), _) => state.fail(
                RuntimeErrorView::TypeError {
                    expected: ValueType::Number,
                    given: right.type_of(),
                },
            ),
            _ => state.fail(
                RuntimeErrorView::TypeError { expected: ValueType::Number, given: left.type_of() },
            ),
        },
    }
}

/// The frames, with `names[from..]` bound to `values[from..]` in the frame `frame`.
pub open spec fn bind_all(
    frames: Seq<FrameView>,
    frame: nat,
    names: Seq<Seq<char>>,
    values: Seq<ValueView>,
    from: nat,
) -> Seq<FrameView>
    decreases names.len() - from,
{
    if from >= names.len() || from >= values.len() {
        frames
    } else {
        bind_all(
            bind(frames, frame, names[from as int], values[from as int]),
            frame,
            names,
            values,
            from + 1,
        )
    }
}

/// The step that calls `callee` with the arguments `values`.
///
/// `clock` asks the host for the time.  `println` goes on to write its
/// arguments.  A function of the program takes as many arguments as it has
/// parameters; they are bound in a new frame below the frame in which the
/// function was declared, and the body is executed in that frame.
pub open spec fn invoke(state: MachineView, callee: CallableView, values: Seq<ValueView>) -> Outcome {
    match callee {
        CallableView::NativeClock => state.ask(RequestView::Clock),
        CallableView::NativePrintln => state.go(
            ControlView::Print { values, next: 0, line: Seq::empty() },
        ),
        CallableView::Fun(fun) => {
            if values.len() != fun.parameters.len() {
                state.fail(
                    RuntimeErrorView::ArityMismatch {
                        expected: fun.parameters.len() as usize,
                        given: values.len() as usize,
                    },
                )
            } else {
                state.with_frames(
                    bind_all(
                        extend(state.frames, Some(fun.environment)),
                        state.frames.len(),
                        fun.parameters,
                        values,
                        0,
                    ),
                ).push(KontView::Finish).push(
                    KontView::Sequence {
                        statements: fun.body,
                        next: 0,
                        environment: state.frames.len(),
                    },
                ).go(ControlView::Done)
            }
        },
    }
}

/// The step that hands `value` to the continuation `kont`, which was taken
/// off the stack of `state`.
pub open spec fn apply(state: MachineView, kont: KontView, value: ValueView) -> Outcome {
    match kont {
        KontView::Unary { operator } => match operator {
            UnaryOperator::Bang => match value {
                ValueView::Bool(truth) => state.give(ValueView::Bool(!truth)),
                _ => state.fail(
                    RuntimeErrorView::TypeError {
                        expected: ValueType::Bool,
                        given: value.type_of(),
                    },
                ),
            },
            UnaryOperator::Minus => match value {
                ValueView::Number(operand) => state.ask(RequestView::Negate { operand }),
                _ => state.fail(
                    RuntimeErrorView::TypeError {
                        expected: ValueType::Number,
                        given: value.type_of(),
                    },
                ),
            },
        },
        KontView::BinaryLeft { operator, right, environment } => match operator {
            BinaryOperator::And => {
                if value.is_truthy() {
                    state.push(KontView::Truthy).go(
                        ControlView::Evaluate { expression: right, environment },
                    )
                } else {
                    state.give(ValueView::Bool(false))
                }
            },
            BinaryOperator::Or => {
                if value.is_truthy() {
                    state.give(value)
                } else {
                    state.push(KontView::Truthy).go(
                        ControlView::Evaluate { expression: right, environment },
                    )
                }
            },
            _ => state.push(KontView::BinaryRight { operator, left: value }).go(
                ControlView::Evaluate { expression: right, environment },
            ),
        },
        KontView::BinaryRight { operator, left } => binary(state, operator, left, value),
        KontView::Truthy => state.give(truthy_or_false(value)),
        KontView::Ternary { true_case, false_case, environment } => state.go(
            ControlView::Evaluate {
                expression: if value.is_truthy() {
                    true_case
                } else {
                    false_case
                },
                environment,
            },
        ),
        KontView::Assign { name, id, environment } => match distance_of(state.locals, id) {
            Some(distance) => match ancestor(state.frames, environment, distance) {
                Some(frame) => state.with_frames(bind(state.frames, frame, name, value)).give(
                    value,
                ),
                None => state.fail(
                    RuntimeErrorView::AssignmentToUndeclaredVariable { identifier: name },
                ),
            },
            None => state.fail(
                RuntimeErrorView::AssignmentToUndeclaredVariable { identifier: name },
            ),
        },
        KontView::Callee { arguments, environment } => match value {
            ValueView::Function(callee) => {
                if arguments.len() == 0 {
                    invoke(state, callee, Seq::empty())
                } else {
                    state.push(
                        KontView::Arguments {
                            callee,
                            arguments,
                            values: Seq::empty(),
                            environment,
                        },
                    ).go(ControlView::Evaluate { expression: arguments[0], environment })
                }
            },
            _ => state.fail(RuntimeErrorView::NotCallable { given: value.type_of() }),
        },
        KontView::Arguments { callee, arguments, values, environment } => {
            if values.len() + 1 < arguments.len() {
                state.push(
                    KontView::Arguments {
                        callee,
                        arguments,
                        values: values.push(value),
                        environment,
                    },
                ).go(
                    ControlView::Evaluate {
                        expression: arguments[values.len() as int + 1],
                        environment,
                    },
                )
            } else {
                invoke(state, callee, values.push(value))
            }
        },
        KontView::PrintText { values, next, line } => match value {
            ValueView::String(text) if next < values.len() => state.go(
                ControlView::Print { values, next: next + 1, line: line + text },
            ),
            _ => state.fail(RuntimeErrorView::UnexpectedReply),
        },
        KontView::Discard => state.go(ControlView::Done),
        KontView::Declare { name, environment } => state.with_frames(
            bind(state.frames, environment, name, value),
        ).go(ControlView::Done),
        KontView::WhileTest { condition, statement, environment } => {
            if value.is_truthy() {
                state.push(KontView::WhileBody { condition, statement, environment }).go(
                    ControlView::Execute { statement, environment },
                )
            } else {
                state.go(ControlView::Done)
            }
        },
        KontView::IfTest { true_case, false_case, environment } => {
            if value.is_truthy() {
                state.go(ControlView::Execute { statement: true_case, environment })
            } else {
                match false_case {
                    Some(statement) => state.go(ControlView::Execute { statement, environment }),
                    None => state.go(ControlView::Done),
                }
            }
        },
        // These await the end of a statement, not a value: they are passed over.
        KontView::WhileBody { .. } | KontView::Sequence { .. } | KontView::Finish => state.go(
            ControlView::Return { value },
        ),
    }
}

/// The step that goes on with the continuation `kont`, which was taken off
/// the stack of `state`, after a statement is over.
pub open spec fn advance(state: MachineView, kont: KontView) -> Outcome {
    match kont {
        KontView::Sequence { statements, next, environment } => {
            if next < statements.len() {
                state.push(KontView::Sequence { statements, next: next + 1, environment }).go(
                    ControlView::Execute { statement: statements[next as int], environment },
                )
            } else {
                state.go(ControlView::Done)
            }
        },
        KontView::WhileBody { condition, statement, environment } => state.push(
            KontView::WhileTest { condition, statement, environment },
        ).go(ControlView::Evaluate { expression: condition, environment }),
        KontView::Finish => state.give(ValueView::Nil),
        // The others await a value, not the end of a statement: they are passed over.
        _ => state.go(ControlView::Done),
    }
}

/// The step of `println` that deals with `values[next]`, or writes `line`
/// where no value is left.  The texts of the values are set apart by one
/// blank; the text of a number is asked of the host.
pub open spec fn print(state: MachineView, values: Seq<ValueView>, next: nat, line: Seq<char>) -> Outcome {
    if next >= values.len() {
        state.ask(RequestView::Print { line })
    } else {
        let start = if next > 0 {
            line.push(' ')
        } else {
            line
        };
        match values[next as int] {
            ValueView::Number(number) => state.push(
                KontView::PrintText { values, next, line: start },
            ).ask(RequestView::Format { number }),
            value => state.go(
                ControlView::Print { values, next: next + 1, line: start + value.text() },
            ),
        }
    }
}

/// The value that a reply stands for.
pub open spec fn reply_value(reply: ReplyView) -> ValueView {
    match reply {
        ReplyView::Number(number) => ValueView::Number(number),
        ReplyView::Bool(truth) => ValueView::Bool(truth),
        ReplyView::Text(text) => ValueView::String(text),
        ReplyView::Done => ValueView::Nil,
    }
}

/// One step of the machine.
///
/// A machine that waits for a reply takes `reply`, which must be there and
/// of the kind asked for.  Any other machine takes no reply.  A machine with
/// an empty stack whose control is a value or the end of a statement has
/// nothing left to do: the program is over.
pub open spec fn step(state: MachineView, reply: Option<ReplyView>) -> Outcome {
    match state.control {
        ControlView::Stopped => Outcome { state, progress: ProgressView::Finished },
        ControlView::Pending { expected } => match reply {
            Some(reply) if reply.kind() == expected => state.give(reply_value(reply)),
            _ => state.fail(RuntimeErrorView::UnexpectedReply),
        },
        control => {
            if reply is Some {
                state.fail(RuntimeErrorView::UnexpectedReply)
            } else {
                match control {
                    ControlView::Evaluate { expression, environment } => evaluate(
                        state,
                        expression,
                        environment,
                    ),
                    ControlView::Execute { statement, environment } => execute(
                        state,
                        statement,
                        environment,
                    ),
                    ControlView::Return { value } => {
                        if state.stack.len() == 0 {
                            Outcome {
                                state: state.with_control(ControlView::Stopped),
                                progress: ProgressView::Finished,
                            }
                        } else {
                            apply(state.pop(), state.stack.last(), value)
                        }
                    },
                    ControlView::Done => {
                        if state.stack.len() == 0 {
                            Outcome {
                                state: state.with_control(ControlView::Stopped),
                                progress: ProgressView::Finished,
                            }
                        } else {
                            advance(state.pop(), state.stack.last())
                        }
                    },
                    ControlView::Print { values, next, line } => print(state, values, next, line),
                    _ => Outcome { state, progress: ProgressView::Finished },
                }
            }
        },
    }
}

/// The state of a machine that is about to run `program`: the frame of the
/// native functions, below it the frame of the program, and the statements
/// of the program left to execute.
pub open spec fn loaded(locals: Map<usize, usize>, program: Seq<StmtView>) -> MachineView {
    MachineView {
        locals,
        frames: extend(
            bind(
                bind(
                    extend(Seq::empty(), None),
                    0,
                    "clock"@,
                    ValueView::Function(CallableView::NativeClock),
                ),
                0,
                "println"@,
                ValueView::Function(CallableView::NativePrintln),
            ),
            Some(0nat),
        ),
        control: ControlView::Done,
        stack: seq![KontView::Sequence { statements: program, next: 0, environment: 1 }],
    }
}

/// `or` does not evaluate its right side where the left side counts as
/// true: the step that takes the left value gives that value, and leaves
/// the frames and the stack as they are.
pub proof fn or_skips_the_right_side(
    state: MachineView,
    right: ExprView,
    environment: nat,
    left: ValueView,
)
    requires
        left.is_truthy(),
    ensures
        apply(state, KontView::BinaryLeft { operator: BinaryOperator::Or, right, environment }, left)
            == state.give(left),
        state.give(left).state.stack == state.stack,
        state.give(left).state.frames == state.frames,
{
}

/// `and` does not evaluate its right side where the left side counts as
/// false: the step that takes the left value gives `false`, and leaves the
/// frames and the stack as they are.
pub proof fn and_skips_the_right_side(
    state: MachineView,
    right: ExprView,
    environment: nat,
    left: ValueView,
)
    requires
        !left.is_truthy(),
    ensures
        apply(
            state,
            KontView::BinaryLeft { operator: BinaryOperator::And, right, environment },
            left,
        ) == state.give(ValueView::Bool(false)),
        state.give(ValueView::Bool(false)).state.stack == state.stack,
        state.give(ValueView::Bool(false)).state.frames == state.frames,
{
}

/// A conditional expression evaluates the one branch that its condition
/// selects, and not the other.
pub proof fn ternary_evaluates_one_branch(
    state: MachineView,
    true_case: ExprView,
    false_case: ExprView,
    environment: nat,
    condition: ValueView,
)
    ensures
        apply(state, KontView::Ternary { true_case, false_case, environment }, condition)
            == state.go(
            ControlView::Evaluate {
                expression: if condition.is_truthy() {
                    true_case
                } else {
                    false_case
                },
                environment,
            },
        ),
{
}

/// Whether `value` names frames among the first `count` only.
pub open spec fn value_valid(value: ValueView, count: nat) -> bool {
    value matches ValueView::Function(CallableView::Fun(fun)) ==> fun.environment < count
}

/// Whether the values of `values` name frames among the first `count` only.
pub open spec fn values_valid(values: Seq<ValueView>, count: nat) -> bool {
    forall|i: int| 0 <= i < values.len() ==> value_valid(#[trigger] values[i], count)
}

/// Whether the values of `frame` name frames among the first `count` only.
pub open spec fn frame_valid(frame: FrameView, count: nat) -> bool {
    forall|name: Seq<char>|
        frame.values.contains_key(name) ==> value_valid(#[trigger] frame.values[name], count)
}

/// Whether the frames hold their parents before them, and values that name
/// frames among them only.
pub open spec fn frames_valid(frames: Seq<FrameView>) -> bool {
    &&& forall|i: int|
        0 <= i < frames.len() ==> ((#[trigger] frames[i]).parent matches Some(parent) ==> parent
            < i)
    &&& forall|i: int| 0 <= i < frames.len() ==> frame_valid(#[trigger] frames[i], frames.len())
}

/// Whether `kont` names frames among the first `count` only.
pub open spec fn kont_valid(kont: KontView, count: nat) -> bool {
    match kont {
        KontView::BinaryLeft { environment, .. } => environment < count,
        KontView::BinaryRight { left, .. } => value_valid(left, count),
        KontView::Ternary { environment, .. } => environment < count,
        KontView::Assign { environment, .. } => environment < count,
        KontView::Callee { environment, .. } => environment < count,
        KontView::Arguments { callee, values, environment, .. } => environment < count
            && value_valid(ValueView::Function(callee), count) && values_valid(values, count),
        KontView::PrintText { values, .. } => values_valid(values, count),
        KontView::Declare { environment, .. } => environment < count,
        KontView::WhileTest { environment, .. } => environment < count,
        KontView::WhileBody { environment, .. } => environment < count,
        KontView::IfTest { environment, .. } => environment < count,
        KontView::Sequence { environment, .. } => environment < count,
        _ => true,
    }
}

/// Whether `control` names frames among the first `count` only.
pub open spec fn control_valid(control: ControlView, count: nat) -> bool {
    match control {
        ControlView::Evaluate { environment, .. } => environment < count,
        ControlView::Execute { environment, .. } => environment < count,
        ControlView::Return { value } => value_valid(value, count),
        ControlView::Print { values, .. } => values_valid(values, count),
        _ => true,
    }
}

impl MachineView {
    /// Whether the continuations name existing frames only.
    pub open spec fn stack_valid(self) -> bool {
        forall|i: int|
            0 <= i < self.stack.len() ==> kont_valid(#[trigger] self.stack[i], self.frames.len())
    }

    /// Every frame that the state names exists: the parents of the frames,
    /// the frames in which the control and the continuations work, and the
    /// frames in which the functions were declared that the state holds as
    /// values.
    pub open spec fn valid(self) -> bool {
        &&& frames_valid(self.frames)
        &&& self.stack_valid()
        &&& control_valid(self.control, self.frames.len())
    }
}

/// A value that is valid among some frames is valid among more.
pub proof fn lemma_kont_valid_grows(kont: KontView, count: nat, more: nat)
    requires
        kont_valid(kont, count),
        count <= more,
    ensures
        kont_valid(kont, more),
{
}

/// Binding a valid value in an existing frame keeps the frames valid.
pub proof fn lemma_bind_valid(frames: Seq<FrameView>, frame: nat, name: Seq<char>, value: ValueView)
    requires
        frames_valid(frames),
        value_valid(value, frames.len()),
    ensures
        frames_valid(bind(frames, frame, name, value)),
        bind(frames, frame, name, value).len() == frames.len(),
{
    let after = bind(frames, frame, name, value);
    if frame < frames.len() {
        assert forall|i: int| 0 <= i < after.len() implies frame_valid(
            #[trigger] after[i],
            after.len(),
        ) by {
            if i == frame {
                assert forall|other: Seq<char>| after[i].values.contains_key(other) implies value_valid(
                    #[trigger] after[i].values[other],
                    after.len(),
                ) by {
                    if other != name {
                        assert(frames[i].values.contains_key(other));
                    }
                }
            } else {
                assert(after[i] == frames[i]);
            }
        }
    }
}

/// A new frame below an existing frame keeps the frames valid.
pub proof fn lemma_extend_valid(frames: Seq<FrameView>, parent: Option<nat>)
    requires
        frames_valid(frames),
        parent matches Some(p) ==> p < frames.len(),
    ensures
        frames_valid(extend(frames, parent)),
        extend(frames, parent).len() == frames.len() + 1,
{
    let after = extend(frames, parent);
    assert forall|i: int| 0 <= i < after.len() implies frame_valid(
        #[trigger] after[i],
        after.len(),
    ) by {
        if i < frames.len() {
            assert(after[i] == frames[i]);
            assert(frame_valid(frames[i], frames.len()));
        }
    }
}

/// Binding valid values in an existing frame keeps the frames valid.
pub proof fn lemma_bind_all_valid(
    frames: Seq<FrameView>,
    frame: nat,
    names: Seq<Seq<char>>,
    values: Seq<ValueView>,
    from: nat,
)
    requires
        frames_valid(frames),
        values_valid(values, frames.len()),
    ensures
        frames_valid(bind_all(frames, frame, names, values, from)),
        bind_all(frames, frame, names, values, from).len() == frames.len(),
    decreases names.len() - from,
{
    if from < names.len() && from < values.len() {
        lemma_bind_valid(frames, frame, names[from as int], values[from as int]);
        lemma_bind_all_valid(
            bind(frames, frame, names[from as int], values[from as int]),
            frame,
            names,
            values,
            from + 1,
        );
    }
}

/// The state with a valid continuation on top of its stack is valid.
pub proof fn lemma_push_valid(state: MachineView, kont: KontView)
    requires
        state.valid(),
        kont_valid(kont, state.frames.len()),
    ensures
        state.push(kont).valid(),
{
    assert forall|i: int| 0 <= i < state.push(kont).stack.len() implies kont_valid(
        #[trigger] state.push(kont).stack[i],
        state.frames.len(),
    ) by {
        if i < state.stack.len() {
            assert(state.push(kont).stack[i] == state.stack[i]);
        }
    }
}

/// The state with valid frames, as many as before or more, is valid.
pub proof fn lemma_frames_valid(state: MachineView, frames: Seq<FrameView>)
    requires
        state.valid(),
        frames_valid(frames),
        state.frames.len() <= frames.len(),
    ensures
        state.with_frames(frames).valid(),
{
    assert forall|i: int| 0 <= i < state.stack.len() implies kont_valid(
        #[trigger] state.with_frames(frames).stack[i],
        frames.len(),
    ) by {
        lemma_kont_valid_grows(state.stack[i], state.frames.len(), frames.len());
    }
}

/// Calling a valid function with valid arguments in a valid state gives a
/// valid state.
pub proof fn lemma_invoke_valid(state: MachineView, callee: CallableView, values: Seq<ValueView>)
    requires
        state.valid(),
        value_valid(ValueView::Function(callee), state.frames.len()),
        values_valid(values, state.frames.len()),
    ensures
        invoke(state, callee, values).state.valid(),
{
    match callee {
        CallableView::Fun(fun) => {
            if values.len() == fun.parameters.len() {
                let opened = extend(state.frames, Some(fun.environment));
                lemma_extend_valid(state.frames, Some(fun.environment));
                assert(values_valid(values, opened.len()));
                lemma_bind_all_valid(opened, state.frames.len(), fun.parameters, values, 0);
                let bound = bind_all(opened, state.frames.len(), fun.parameters, values, 0);
                lemma_frames_valid(state, bound);
                let first = state.with_frames(bound);
                lemma_push_valid(first, KontView::Finish);
                lemma_push_valid(
                    first.push(KontView::Finish),
                    KontView::Sequence {
                        statements: fun.body,
                        next: 0,
                        environment: state.frames.len(),
                    },
                );
            }
        },
        _ => {},
    }
}

/// A step of a valid state gives a valid state: a machine never names a
/// frame that does not exist.
pub proof fn step_keeps_valid(state: MachineView, reply: Option<ReplyView>)
    requires
        state.valid(),
    ensures
        step(state, reply).state.valid(),
{
    let count = state.frames.len();
    match state.control {
        ControlView::Evaluate { expression, environment } => {
            if reply is None {
                lemma_evaluate_valid(state, expression, environment);
            }
        },
        ControlView::Execute { statement, environment } => {
            if reply is None {
                lemma_execute_valid(state, statement, environment);
            }
        },
        ControlView::Return { value } => {
            if reply is None && state.stack.len() > 0 {
                lemma_pop_valid(state);
                lemma_apply_valid(state.pop(), state.stack.last(), value);
            }
        },
        ControlView::Done => {
            if reply is None && state.stack.len() > 0 {
                lemma_pop_valid(state);
                lemma_advance_valid(state.pop(), state.stack.last());
            }
        },
        ControlView::Print { values, next, line } => {
            if reply is None && next < values.len() {
                lemma_push_valid(state, KontView::PrintText { values, next, line: if next > 0 {
                    line.push(' ')
                } else {
                    line
                } });
            }
        },
        _ => {},
    }
}

/// The state without the continuation on top of its stack is valid, and so
/// is the continuation.
pub proof fn lemma_pop_valid(state: MachineView)
    requires
        state.valid(),
        state.stack.len() > 0,
    ensures
        state.pop().valid(),
        kont_valid(state.stack.last(), state.frames.len()),
{
    assert forall|i: int| 0 <= i < state.pop().stack.len() implies kont_valid(
        #[trigger] state.pop().stack[i],
        state.frames.len(),
    ) by {
        assert(state.pop().stack[i] == state.stack[i]);
    }
}

/// The first step of an evaluation in an existing frame keeps the state valid.
pub proof fn lemma_evaluate_valid(state: MachineView, expression: ExprView, environment: nat)
    requires
        state.valid(),
        environment < state.frames.len(),
    ensures
        evaluate(state, expression, environment).state.valid(),
{
    match expression {
        ExprView::Unary { operator, expr } => {
            lemma_push_valid(state, KontView::Unary { operator });
        },
        ExprView::Binary { operator, left, right } => {
            lemma_push_valid(state, KontView::BinaryLeft { operator, right: *right, environment });
        },
        ExprView::Ternary { conditional, true_case, false_case } => {
            lemma_push_valid(
                state,
                KontView::Ternary { true_case: *true_case, false_case: *false_case, environment },
            );
        },
        ExprView::Assignment { name, expression, id } => {
            lemma_push_valid(state, KontView::Assign { name, id, environment });
        },
        ExprView::Call { function, arguments } => {
            lemma_push_valid(state, KontView::Callee { arguments, environment });
        },
        ExprView::Literal { value: LiteralView::Identifier { name, id } } => {
            if let Some(distance) = distance_of(state.locals, id) {
                lemma_ancestor_exists(state.frames, environment, distance);
            }
        },
        _ => {},
    }
}

/// The frame that stands some parents above a frame is one of the frames.
pub proof fn lemma_ancestor_exists(frames: Seq<FrameView>, frame: nat, distance: nat)
    ensures
        ancestor(frames, frame, distance) matches Some(found) ==> found < frames.len(),
    decreases distance,
{
    if frame < frames.len() && distance > 0 {
        if let Some(parent) = frames[frame as int].parent {
            lemma_ancestor_exists(frames, parent, (distance - 1) as nat);
        }
    }
}

/// The first step of an execution in an existing frame keeps the state valid.
pub proof fn lemma_execute_valid(state: MachineView, statement: StmtView, environment: nat)
    requires
        state.valid(),
        environment < state.frames.len(),
    ensures
        execute(state, statement, environment).state.valid(),
{
    match statement {
        StmtView::Expression { expression } => {
            lemma_push_valid(state, KontView::Discard);
        },
        StmtView::Declaration { name, initializer } => {
            lemma_push_valid(state, KontView::Declare { name, environment });
        },
        StmtView::FunDeclaration { name, parameters, body } => {
            let value = ValueView::Function(
                CallableView::Fun(FunView { parameters, body, name, environment }),
            );
            lemma_bind_valid(state.frames, environment, name, value);
            lemma_frames_valid(state, bind(state.frames, environment, name, value));
        },
        StmtView::Block { statements } => {
            lemma_extend_valid(state.frames, Some(environment));
            lemma_frames_valid(state, extend(state.frames, Some(environment)));
            lemma_push_valid(
                state.with_frames(extend(state.frames, Some(environment))),
                KontView::Sequence { statements, next: 0, environment: state.frames.len() },
            );
        },
        StmtView::While { condition, statement } => {
            lemma_push_valid(
                state,
                KontView::WhileTest { condition, statement: *statement, environment },
            );
        },
        StmtView::If { condition, true_case, false_case } => {
            lemma_push_valid(
                state,
                KontView::IfTest {
                    true_case: *true_case,
                    false_case: match false_case {
                        Some(statement) => Some(*statement),
                        None => None,
                    },
                    environment,
                },
            );
        },
    }
}

/// Handing a valid value to a valid continuation keeps the state valid.
pub proof fn lemma_apply_valid(state: MachineView, kont: KontView, value: ValueView)
    requires
        state.valid(),
        kont_valid(kont, state.frames.len()),
        value_valid(value, state.frames.len()),
    ensures
        apply(state, kont, value).state.valid(),
{
    match kont {
        KontView::BinaryLeft { operator, right, environment } => {
            lemma_push_valid(state, KontView::Truthy);
            lemma_push_valid(state, KontView::BinaryRight { operator, left: value });
        },
        KontView::Assign { name, id, environment } => {
            if let Some(distance) = distance_of(state.locals, id) {
                lemma_ancestor_exists(state.frames, environment, distance);
                if let Some(frame) = ancestor(state.frames, environment, distance) {
                    lemma_bind_valid(state.frames, frame, name, value);
                    lemma_frames_valid(state, bind(state.frames, frame, name, value));
                }
            }
        },
        KontView::Callee { arguments, environment } => {
            if let ValueView::Function(callee) = value {
                if arguments.len() == 0 {
                    lemma_invoke_valid(state, callee, Seq::empty());
                } else {
                    lemma_push_valid(
                        state,
                        KontView::Arguments {
                            callee,
                            arguments,
                            values: Seq::empty(),
                            environment,
                        },
                    );
                }
            }
        },
        KontView::Arguments { callee, arguments, values, environment } => {
            assert(values_valid(values.push(value), state.frames.len())) by {
                assert forall|i: int| 0 <= i < values.push(value).len() implies value_valid(
                    #[trigger] values.push(value)[i],
                    state.frames.len(),
                ) by {
                    if i < values.len() {
                        assert(values.push(value)[i] == values[i]);
                    }
                }
            }
            if values.len() + 1 < arguments.len() {
                lemma_push_valid(
                    state,
                    KontView::Arguments {
                        callee,
                        arguments,
                        values: values.push(value),
                        environment,
                    },
                );
            } else {
                lemma_invoke_valid(state, callee, values.push(value));
            }
        },
        KontView::Declare { name, environment } => {
            lemma_bind_valid(state.frames, environment, name, value);
            lemma_frames_valid(state, bind(state.frames, environment, name, value));
        },
        KontView::WhileTest { condition, statement, environment } => {
            lemma_push_valid(state, KontView::WhileBody { condition, statement, environment });
        },
        _ => {},
    }
}

/// Going on with a valid continuation after a statement keeps the state valid.
pub proof fn lemma_advance_valid(state: MachineView, kont: KontView)
    requires
        state.valid(),
        kont_valid(kont, state.frames.len()),
    ensures
        advance(state, kont).state.valid(),
{
    match kont {
        KontView::Sequence { statements, next, environment } => {
            lemma_push_valid(state, KontView::Sequence { statements, next: next + 1, environment });
        },
        KontView::WhileBody { condition, statement, environment } => {
            lemma_push_valid(state, KontView::WhileTest { condition, statement, environment });
        },
        _ => {},
    }
}

/// The state of a machine that is about to run a program is valid.
pub proof fn loaded_is_valid(locals: Map<usize, usize>, program: Seq<StmtView>)
    ensures
        loaded(locals, program).valid(),
{
    let first = extend(Seq::empty(), None);
    lemma_extend_valid(Seq::empty(), None);
    let clock = ValueView::Function(CallableView::NativeClock);
    let println = ValueView::Function(CallableView::NativePrintln);
    lemma_bind_valid(first, 0, "clock"@, clock);
    let second = bind(first, 0, "clock"@, clock);
    lemma_bind_valid(second, 0, "println"@, println);
    let third = bind(second, 0, "println"@, println);
    lemma_extend_valid(third, Some(0nat));
}

} // verus!
