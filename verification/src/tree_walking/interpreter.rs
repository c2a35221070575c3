//! The tree-walking evaluator.
//!
//! An [`Interpreter`] is the machine of [`crate::tree_walking::machine`]:
//! every method that makes a step is held to the function there that says
//! what the step is.

use crate::host::{Arithmetic, Comparison, Expected, Reply, Request};
use crate::tree_walking::ast::{
    expr_views, lemma_expr_views, lemma_stmt_views, name_views, stmt_views,
    BinaryOperator, Expr, Literal, Stmt, UnaryOperator,
};
use crate::tree_walking::environment::{bind, well_formed, Environment};
use crate::tree_walking::errors::{RuntimeError, ValueType};
use crate::tree_walking::machine;
use crate::tree_walking::machine::{ControlView, KontView, MachineView, Outcome, ProgressView};
use crate::tree_walking::resolver::Locals;
use crate::tree_walking::scoping::scoped_stmts;
use crate::tree_walking::soundness::{
    initial_scopes, is_scope_failure, loaded_is_sound, step_keeps_sound,
};
use crate::tree_walking::value::{value_views, Callable, Fun, Value, ValueView};
use vstd::prelude::*;
use vstd::string::StringExecFns;

verus! {

broadcast use vstd::std_specs::hash::group_hash_axioms;

/// What the machine is about to do.
pub enum Control<'a> {
    /// Evaluate `expression` in the frame `environment`.
    Evaluate { expression: &'a Expr, environment: usize },
    /// Execute `statement` in the frame `environment`.
    Execute { statement: &'a Stmt, environment: usize },
    /// Hand `value` to the continuation on top of the stack.
    Return { value: Value<'a> },
    /// A statement is over: go on with the continuation on top of the stack.
    Done,
    /// Write `values[next..]` behind `line`, for `println`.
    Print { values: Vec<Value<'a>>, next: usize, line: String },
    /// Take the reply to the request that the last step made.
    Pending { expected: Expected },
    /// Nothing: the program is over, or it failed.
    Stopped,
}

impl<'a> View for Control<'a> {
    type V = ControlView;

    open spec fn view(&self) -> ControlView {
        match self {
            Control::Evaluate { expression, environment } => ControlView::Evaluate {
                expression: expression@,
                environment: *environment as nat,
            },
            Control::Execute { statement, environment } => ControlView::Execute {
                statement: statement@,
                environment: *environment as nat,
            },
            Control::Return { value } => ControlView::Return { value: value@ },
            Control::Done => ControlView::Done,
            Control::Print { values, next, line } => ControlView::Print {
                values: value_views(values@),
                next: *next as nat,
                line: line@,
            },
            Control::Pending { expected } => ControlView::Pending { expected: *expected },
            Control::Stopped => ControlView::Stopped,
        }
    }
}

/// What is left to do once the control has given its result.
pub enum Kont<'a> {
    Unary { operator: UnaryOperator },
    BinaryLeft { operator: BinaryOperator, right: &'a Expr, environment: usize },
    BinaryRight { operator: BinaryOperator, left: Value<'a> },
    Truthy,
    Ternary { true_case: &'a Expr, false_case: &'a Expr, environment: usize },
    Assign { name: &'a String, id: usize, environment: usize },
    Callee { arguments: &'a Vec<Expr>, environment: usize },
    Arguments {
        callee: Callable<'a>,
        arguments: &'a Vec<Expr>,
        values: Vec<Value<'a>>,
        environment: usize,
    },
    PrintText { values: Vec<Value<'a>>, next: usize, line: String },
    Discard,
    Declare { name: &'a String, environment: usize },
    WhileTest { condition: &'a Expr, statement: &'a Stmt, environment: usize },
    WhileBody { condition: &'a Expr, statement: &'a Stmt, environment: usize },
    IfTest { true_case: &'a Stmt, false_case: Option<&'a Stmt>, environment: usize },
    Sequence { statements: &'a Vec<Stmt>, next: usize, environment: usize },
    Finish,
}

impl<'a> View for Kont<'a> {
    type V = KontView;

    open spec fn view(&self) -> KontView {
        match self {
            Kont::Unary { operator } => KontView::Unary { operator: *operator },
            Kont::BinaryLeft { operator, right, environment } => KontView::BinaryLeft {
                operator: *operator,
                right: right@,
                environment: *environment as nat,
            },
            Kont::BinaryRight { operator, left } => KontView::BinaryRight {
                operator: *operator,
                left: left@,
            },
            Kont::Truthy => KontView::Truthy,
            Kont::Ternary { true_case, false_case, environment } => KontView::Ternary {
                true_case: true_case@,
                false_case: false_case@,
                environment: *environment as nat,
            },
            Kont::Assign { name, id, environment } => KontView::Assign {
                name: name@,
                id: *id as nat,
                environment: *environment as nat,
            },
            Kont::Callee { arguments, environment } => KontView::Callee {
                arguments: expr_views(arguments@),
                environment: *environment as nat,
            },
            Kont::Arguments { callee, arguments, values, environment } => KontView::Arguments {
                callee: callee@,
                arguments: expr_views(arguments@),
                values: value_views(values@),
                environment: *environment as nat,
            },
            Kont::PrintText { values, next, line } => KontView::PrintText {
                values: value_views(values@),
                next: *next as nat,
                line: line@,
            },
            Kont::Discard => KontView::Discard,
            Kont::Declare { name, environment } => KontView::Declare {
                name: name@,
                environment: *environment as nat,
            },
            Kont::WhileTest { condition, statement, environment } => KontView::WhileTest {
                condition: condition@,
                statement: statement@,
                environment: *environment as nat,
            },
            Kont::WhileBody { condition, statement, environment } => KontView::WhileBody {
                condition: condition@,
                statement: statement@,
                environment: *environment as nat,
            },
            Kont::IfTest { true_case, false_case, environment } => KontView::IfTest {
                true_case: true_case@,
                false_case: match false_case {
                    Some(statement) => Some(statement@),
                    None => None,
                },
                environment: *environment as nat,
            },
            Kont::Sequence { statements, next, environment } => KontView::Sequence {
                statements: stmt_views(statements@),
                next: *next as nat,
                environment: *environment as nat,
            },
            Kont::Finish => KontView::Finish,
        }
    }
}

/// The models of the continuations of `stack`, in order.
pub open spec fn kont_views<'a>(stack: Seq<Kont<'a>>) -> Seq<KontView> {
    Seq::new(stack.len(), |i: int| stack[i]@)
}

/// How far a step got.
#[derive(Debug, PartialEq)]
pub enum Progress {
    /// The step is made; the next can follow.
    Running,
    /// The host is asked for something; the next step takes its reply.
    Waiting(Request),
    /// The program is over.
    Finished,
    /// The program failed.
    Failed(RuntimeError),
}

impl View for Progress {
    type V = ProgressView;

    open spec fn view(&self) -> ProgressView {
        match self {
            Progress::Running => ProgressView::Running,
            Progress::Waiting(request) => ProgressView::Waiting(request@),
            Progress::Finished => ProgressView::Finished,
            Progress::Failed(error) => ProgressView::Failed(error@),
        }
    }
}

/// The machine got to the state `post` with `progress`, as `outcome` tells.
pub open spec fn stepped(post: MachineView, progress: Progress, outcome: Outcome) -> bool {
    post == outcome.state && progress@ == outcome.progress
}

/// The tree-walking evaluator of one program.
pub struct Interpreter<'a> {
    pub(crate) locals: Locals,
    environment: Environment<'a>,
    control: Control<'a>,
    stack: Vec<Kont<'a>>,
}

impl<'a> View for Interpreter<'a> {
    type V = MachineView;

    closed spec fn view(&self) -> MachineView {
        MachineView {
            locals: self.locals@,
            frames: self.environment@,
            control: self.control@,
            stack: kont_views(self.stack@),
        }
    }
}

impl<'a> Interpreter<'a> {
    /// Every frame that the evaluator names exists.
    pub closed spec fn wf(&self) -> bool {
        self@.valid()
    }

    /// An evaluator with the distances `locals` and no program: it has no
    /// frame, nothing to do and nothing left to do.
    pub fn new(locals: Locals) -> (interpreter: Self)
        ensures
            interpreter.wf(),
            interpreter@ == (MachineView {
                locals: locals@,
                frames: Seq::empty(),
                control: ControlView::Stopped,
                stack: Seq::empty(),
            }),
    {
        let interpreter = Interpreter {
            locals,
            environment: Environment::new(),
            control: Control::Stopped,
            stack: Vec::new(),
        };
        assert(interpreter@.stack =~= Seq::<KontView>::empty());
        interpreter
    }


    /// Makes the evaluator ready to run `program` from its first statement,
    /// whatever it was doing.
    pub fn interpret_program(&mut self, program: &'a Vec<Stmt>)
        ensures
            final(self).wf(),
            final(self)@ == machine::loaded(old(self)@.locals, stmt_views(program@)),
            scoped_stmts(old(self)@.locals, initial_scopes(), stmt_views(program@), 0) ==> final(self)@.sound(),
    {
        let mut environment = Environment::new();
        let global = environment.open(None);
        environment.define(global, "clock", Value::Function(Callable::NativeClock));
        environment.define(global, "println", Value::Function(Callable::NativePrintln));
        let top = environment.open(Some(global));
        self.environment = environment;
        self.control = Control::Done;
        let mut stack: Vec<Kont<'a>> = Vec::new();
        stack.push(Kont::Sequence { statements: program, next: 0, environment: top });
        self.stack = stack;
        assert(self@.stack =~= machine::loaded(old(self)@.locals, stmt_views(program@)).stack);
        proof {
            machine::loaded_is_valid(old(self)@.locals, stmt_views(program@));
            if scoped_stmts(old(self)@.locals, initial_scopes(), stmt_views(program@), 0) {
                loaded_is_sound(old(self)@.locals, stmt_views(program@));
            }
        }
    }

    fn push(&mut self, kont: Kont<'a>)
        ensures
            final(self)@ == old(self)@.push(kont@),
    {
        self.stack.push(kont);
        assert(self@.stack =~= old(self)@.stack.push(kont@));
    }

    fn pop(&mut self) -> (kont: Option<Kont<'a>>)
        ensures
            match kont {
                Some(top) => old(self)@.stack.len() > 0 && top@ == old(self)@.stack.last()
                    && final(self)@ == old(self)@.pop(),
                None => old(self)@.stack.len() == 0 && final(self)@ == old(self)@,
            },
    {
        let kont = self.stack.pop();
        assert(kont is Some ==> self@.stack =~= old(self)@.stack.drop_last());
        kont
    }

    fn go(&mut self, control: Control<'a>) -> (progress: Progress)
        ensures
            stepped(final(self)@, progress, old(self)@.go(control@)),
    {
        self.control = control;
        Progress::Running
    }

    fn give(&mut self, value: Value<'a>) -> (progress: Progress)
        ensures
            stepped(final(self)@, progress, old(self)@.give(value@)),
    {
        self.go(Control::Return { value })
    }

    fn fail(&mut self, error: RuntimeError) -> (progress: Progress)
        ensures
            stepped(final(self)@, progress, old(self)@.fail(error@)),
    {
        self.control = Control::Stopped;
        Progress::Failed(error)
    }

    fn ask(&mut self, request: Request) -> (progress: Progress)
        ensures
            stepped(final(self)@, progress, old(self)@.ask(request@)),
    {
        self.control = Control::Pending { expected: request.expects() };
        Progress::Waiting(request)
    }

    /// Binds `name` to `value` in the frame `frame`, which must exist.
    fn bind(&mut self, frame: usize, name: &str, value: Value<'a>)
        requires
            well_formed(old(self)@.frames),
            frame < old(self)@.frames.len(),
        ensures
            well_formed(final(self)@.frames),
            final(self)@ == old(self)@.with_frames(
                bind(old(self)@.frames, frame as nat, name@, value@),
            ),
    {
        self.environment.define(frame, name, value);
    }

    /// The distance resolved for the use or the assignment `id`, if one was.
    fn distance_of(&self, id: usize) -> (distance: Option<usize>)
        ensures
            match distance {
                Some(d) => machine::distance_of(self@.locals, id as nat) == Some(d as nat),
                None => machine::distance_of(self@.locals, id as nat) is None,
            },
    {
        match self.locals.get(&id) {
            Some(distance) => Some(*distance),
            None => None,
        }
    }

    /// The first step of the evaluation of `expr` in the frame `environment`.
    pub fn interpret_expr(&mut self, expr: &'a Expr, environment: usize) -> (progress: Progress)
        requires
            old(self).wf(),
            environment < old(self)@.frames.len(),
        ensures
            final(self).wf(),
            stepped(
                final(self)@,
                progress,
                machine::evaluate(old(self)@, expr@, environment as nat),
            ),
    {
        proof {
            machine::lemma_evaluate_valid(old(self)@, expr@, environment as nat);
        }
        match expr {
            Expr::Unary { operator, expr } => {
                self.push(Kont::Unary { operator: *operator });
                self.go(Control::Evaluate { expression: &**expr, environment })
            },
            Expr::Binary { operator, left, right } => {
                self.push(Kont::BinaryLeft { operator: *operator, right: &**right, environment });
                self.go(Control::Evaluate { expression: &**left, environment })
            },
            Expr::Ternary { conditional, true_case, false_case } => {
                self.push(
                    Kont::Ternary {
                        true_case: &**true_case,
                        false_case: &**false_case,
                        environment,
                    },
                );
                self.go(Control::Evaluate { expression: &**conditional, environment })
            },
            Expr::Grouping { expr } => self.go(
                Control::Evaluate { expression: &**expr, environment },
            ),
            Expr::Literal { value } => match value {
                Literal::True => self.give(Value::Bool(true)),
                Literal::False => self.give(Value::Bool(false)),
                Literal::Number { lexeme } => self.ask(Request::Parse { lexeme: lexeme.clone() }),
                Literal::String { value } => self.give(Value::String(value.clone())),
                Literal::Nil => self.give(Value::Nil),
                Literal::Identifier { name, id } => {
                    let found = match self.distance_of(*id) {
                        Some(distance) => self.environment.get(
                            environment,
                            name.as_str(),
                            distance,
                        ),
                        None => None,
                    };
                    match found {
                        Some(value) => self.give(value),
                        None => self.fail(
                            RuntimeError::UndefinedIdentifier { name: name.clone() },
                        ),
                    }
                },
            },
            Expr::Assignment { name, expression, id } => {
                self.push(Kont::Assign { name, id: *id, environment });
                self.go(Control::Evaluate { expression: &**expression, environment })
            },
            Expr::Call { function, arguments } => {
                self.push(Kont::Callee { arguments, environment });
                self.go(Control::Evaluate { expression: &**function, environment })
            },
        }
    }

    /// The first step of the execution of `stmt` in the frame `environment`.
    pub fn interpret_stmt(&mut self, stmt: &'a Stmt, environment: usize) -> (progress: Progress)
        requires
            old(self).wf(),
            environment < old(self)@.frames.len(),
        ensures
            final(self).wf(),
            stepped(
                final(self)@,
                progress,
                machine::execute(old(self)@, stmt@, environment as nat),
            ),
    {
        proof {
            machine::lemma_execute_valid(old(self)@, stmt@, environment as nat);
        }
        match stmt {
            Stmt::Block { statements } => {
                let block_environment = self.environment.open(Some(environment));
                self.push(
                    Kont::Sequence { statements, next: 0, environment: block_environment },
                );
                self.go(Control::Done)
            },
            Stmt::Expression { expression } => {
                self.push(Kont::Discard);
                self.go(Control::Evaluate { expression: &**expression, environment })
            },
            Stmt::Declaration { name, initializer } => {
                self.push(Kont::Declare { name, environment });
                self.go(Control::Evaluate { expression: &**initializer, environment })
            },
            Stmt::FunDeclaration { name, parameters, body } => {
                let value = Fun { parameters, body, name, environment };
                self.bind(environment, name.as_str(), Value::Function(Callable::Fun(value)));
                self.go(Control::Done)
            },
            Stmt::While { condition, statement } => {
                self.push(
                    Kont::WhileTest { condition: &**condition, statement: &**statement, environment },
                );
                self.go(Control::Evaluate { expression: &**condition, environment })
            },
            Stmt::If { condition, true_case, false_case } => {
                let other: Option<&'a Stmt> = match false_case {
                    Some(statement) => Some(&**statement),
                    None => None,
                };
                self.push(Kont::IfTest { true_case: &**true_case, false_case: other, environment });
                self.go(Control::Evaluate { expression: &**condition, environment })
            },
        }
    }
    /// The request that computes the arithmetic `operator`, for the four
    /// operators that are arithmetic.
    fn arithmetic_of(operator: BinaryOperator) -> (arithmetic: Option<Arithmetic>)
        ensures
            arithmetic == machine::arithmetic_of(operator),
    {
        match operator {
            BinaryOperator::Plus => Some(Arithmetic::Add),
            BinaryOperator::Minus => Some(Arithmetic::Subtract),
            BinaryOperator::Star => Some(Arithmetic::Multiply),
            BinaryOperator::Slash => Some(Arithmetic::Divide),
            _ => None,
        }
    }

    /// The comparison of numbers that `operator` stands for, for the six
    /// operators that compare.
    fn comparison_of(operator: BinaryOperator) -> (comparison: Option<Comparison>)
        ensures
            comparison == machine::comparison_of(operator),
    {
        match operator {
            BinaryOperator::EqualEqual => Some(Comparison::Equal),
            BinaryOperator::BangEqual => Some(Comparison::NotEqual),
            BinaryOperator::Less => Some(Comparison::Less),
            BinaryOperator::LessEqual => Some(Comparison::LessEqual),
            BinaryOperator::Greater => Some(Comparison::Greater),
            BinaryOperator::GreaterEqual => Some(Comparison::GreaterEqual),
            _ => None,
        }
    }

    /// What `value` is where a truth value is asked for by `and` and `or`.
    fn truthy_or_false(value: Value<'a>) -> (result: Value<'a>)
        ensures
            result@ == machine::truthy_or_false(value@),
    {
        if value.is_truthy() {
            value
        } else {
            Value::Bool(false)
        }
    }

    /// The step that applies `operator` to the values `left` and `right`.
    fn binary(&mut self, operator: BinaryOperator, left: Value<'a>, right: Value<'a>) -> (progress:
        Progress)
        ensures
            stepped(
                final(self)@,
                progress,
                machine::binary(old(self)@, operator, left@, right@),
            ),
    {
        match operator {
            BinaryOperator::Comma => self.give(right),
            BinaryOperator::And | BinaryOperator::Or => self.give(Self::truthy_or_false(right)),
            BinaryOperator::EqualEqual | BinaryOperator::BangEqual => {
                let equal = match operator {
                    BinaryOperator::EqualEqual => true,
                    _ => false,
                };
                let comparison = match operator {
                    BinaryOperator::EqualEqual => Comparison::Equal,
                    _ => Comparison::NotEqual,
                };
                match (&left, &right) {
                    (Value::Number(a), Value::Number(b)) => self.ask(
                        Request::Compare { operator: comparison, left: *a, right: *b },
                    ),
                    (Value::String(a), Value::String(b)) => {
                        let same = a.eq(b);
                        self.give(Value::Bool(same == equal))
                    },
                    (Value::Bool(a), Value::Bool(b)) => {
                        let same = *a == *b;
                        self.give(Value::Bool(same == equal))
                    },
                    _ => self.fail(
                        RuntimeError::NotComparable {
                            left: left.type_of(),
                            right: right.type_of(),
                        },
                    ),
                }
            },
            _ => match (&left, &right) {
                (Value::Number(a), Value::Number(b)) => match Self::arithmetic_of(operator) {
                    Some(arithmetic) => self.ask(
                        Request::Calculate { operator: arithmetic, left: *a, right: *b },
                    ),
                    None => match Self::comparison_of(operator) {
                        Some(comparison) => self.ask(
                            Request::Compare { operator: comparison, left: *a, right: *b },
                        ),
                        None => self.fail(RuntimeError::UnexpectedReply),
                    },
                },
                (Value::Number(_), _) => self.fail(
                    RuntimeError::TypeError {
                        expected: ValueType::Number,
                        given: right.type_of(),
                    },
                ),
                _ => self.fail(
                    RuntimeError::TypeError { expected: ValueType::Number, given: left.type_of() },
                ),
            },
        }
    }

    /// The step that calls `callee` with the arguments `values`.
    fn invoke(&mut self, callee: Callable<'a>, values: Vec<Value<'a>>) -> (progress: Progress)
        requires
            well_formed(old(self)@.frames),
            machine::value_valid(ValueView::Function(callee@), old(self)@.frames.len()),
        ensures
            stepped(
                final(self)@,
                progress,
                machine::invoke(old(self)@, callee@, value_views(values@)),
            ),
    {
        match callee {
            Callable::NativeClock => self.ask(Request::Clock),
            Callable::NativePrintln => self.go(
                Control::Print { values, next: 0, line: String::new() },
            ),
            Callable::Fun(fun) => {
                if values.len() != fun.parameters.len() {
                    return self.fail(
                        RuntimeError::ArityMismatch {
                            expected: fun.parameters.len(),
                            given: values.len(),
                        },
                    );
                }
                let frame = self.environment.open(Some(fun.environment));
                let ghost opened = self@;
                let mut index: usize = 0;
                while index < fun.parameters.len()
                    invariant
                        well_formed(self@.frames),
                        index <= fun.parameters@.len(),
                        values@.len() == fun.parameters@.len(),
                        frame < self@.frames.len(),
                        self@ == opened.with_frames(self@.frames),
                        machine::bind_all(
                            opened.frames,
                            frame as nat,
                            name_views(fun.parameters@),
                            value_views(values@),
                            0,
                        ) == machine::bind_all(
                            self@.frames,
                            frame as nat,
                            name_views(fun.parameters@),
                            value_views(values@),
                            index as nat,
                        ),
                    decreases fun.parameters@.len() - index,
                {
                    self.bind(frame, fun.parameters[index].as_str(), values[index].duplicate());
                    index += 1;
                }
                self.push(Kont::Finish);
                self.push(Kont::Sequence { statements: fun.body, next: 0, environment: frame });
                self.go(Control::Done)
            },
        }
    }

    /// The step that hands `value` to the continuation `kont`, which was
    /// taken off the stack.
    fn apply(&mut self, kont: Kont<'a>, value: Value<'a>) -> (progress: Progress)
        requires
            well_formed(old(self)@.frames),
            machine::kont_valid(kont@, old(self)@.frames.len()),
            machine::value_valid(value@, old(self)@.frames.len()),
        ensures
            stepped(final(self)@, progress, machine::apply(old(self)@, kont@, value@)),
    {
        match kont {
            Kont::Unary { operator } => match operator {
                UnaryOperator::Bang => match value {
                    Value::Bool(inner) => self.give(Value::Bool(!inner)),
                    _ => self.fail(
                        RuntimeError::TypeError {
                            expected: ValueType::Bool,
                            given: value.type_of(),
                        },
                    ),
                },
                UnaryOperator::Minus => match value {
                    Value::Number(inner) => self.ask(Request::Negate { operand: inner }),
                    _ => self.fail(
                        RuntimeError::TypeError {
                            expected: ValueType::Number,
                            given: value.type_of(),
                        },
                    ),
                },
            },
            Kont::BinaryLeft { operator, right, environment } => match operator {
                BinaryOperator::And => {
                    if value.is_truthy() {
                        self.push(Kont::Truthy);
                        self.go(Control::Evaluate { expression: right, environment })
                    } else {
                        self.give(Value::Bool(false))
                    }
                },
                BinaryOperator::Or => {
                    if value.is_truthy() {
                        self.give(value)
                    } else {
                        self.push(Kont::Truthy);
                        self.go(Control::Evaluate { expression: right, environment })
                    }
                },
                _ => {
                    self.push(Kont::BinaryRight { operator, left: value });
                    self.go(Control::Evaluate { expression: right, environment })
                },
            },
            Kont::BinaryRight { operator, left } => self.binary(operator, left, value),
            Kont::Truthy => self.give(Self::truthy_or_false(value)),
            Kont::Ternary { true_case, false_case, environment } => {
                if value.is_truthy() {
                    self.go(Control::Evaluate { expression: true_case, environment })
                } else {
                    self.go(Control::Evaluate { expression: false_case, environment })
                }
            },
            Kont::Assign { name, id, environment } => {
                let assigned = match self.distance_of(id) {
                    Some(distance) => self.environment.assign(
                        environment,
                        name.as_str(),
                        value,
                        distance,
                    ),
                    None => None,
                };
                match assigned {
                    Some(value) => self.give(value),
                    None => self.fail(
                        RuntimeError::AssignmentToUndeclaredVariable { identifier: name.clone() },
                    ),
                }
            },
            Kont::Callee { arguments, environment } => match value {
                Value::Function(callee) => {
                    let values: Vec<Value<'a>> = Vec::new();
                    assert(value_views(values@) =~= Seq::<ValueView>::empty());
                    proof {
                        lemma_expr_views(arguments@);
                    }
                    if arguments.len() == 0 {
                        self.invoke(callee, values)
                    } else {
                        self.push(Kont::Arguments { callee, arguments, values, environment });
                        self.go(Control::Evaluate { expression: &arguments[0], environment })
                    }
                },
                _ => self.fail(RuntimeError::NotCallable { given: value.type_of() }),
            },
            Kont::Arguments { callee, arguments, values, environment } => {
                let mut values = values;
                let ghost before = value_views(values@);
                values.push(value);
                assert(value_views(values@) =~= before.push(value@));
                proof {
                    lemma_expr_views(arguments@);
                }
                if values.len() < arguments.len() {
                    let next = values.len();
                    self.push(Kont::Arguments { callee, arguments, values, environment });
                    self.go(Control::Evaluate { expression: &arguments[next], environment })
                } else {
                    self.invoke(callee, values)
                }
            },
            Kont::PrintText { values, next, line } => match value {
                Value::String(text) => {
                    if next >= values.len() {
                        return self.fail(RuntimeError::UnexpectedReply);
                    }
                    let mut line = line;
                    line.append(text.as_str());
                    self.go(Control::Print { values, next: next + 1, line })
                },
                _ => self.fail(RuntimeError::UnexpectedReply),
            },
            Kont::Discard => self.go(Control::Done),
            Kont::Declare { name, environment } => {
                self.bind(environment, name.as_str(), value);
                self.go(Control::Done)
            },
            Kont::WhileTest { condition, statement, environment } => {
                if value.is_truthy() {
                    self.push(Kont::WhileBody { condition, statement, environment });
                    self.go(Control::Execute { statement, environment })
                } else {
                    self.go(Control::Done)
                }
            },
            Kont::IfTest { true_case, false_case, environment } => {
                if value.is_truthy() {
                    self.go(Control::Execute { statement: true_case, environment })
                } else {
                    match false_case {
                        Some(statement) => self.go(Control::Execute { statement, environment }),
                        None => self.go(Control::Done),
                    }
                }
            },
            Kont::WhileBody { .. } | Kont::Sequence { .. } | Kont::Finish => self.give(value),
        }
    }

    /// The step that goes on with the continuation `kont`, which was taken
    /// off the stack, after a statement is over.
    fn advance(&mut self, kont: Kont<'a>) -> (progress: Progress)
        ensures
            stepped(final(self)@, progress, machine::advance(old(self)@, kont@)),
    {
        match kont {
            Kont::Sequence { statements, next, environment } => {
                proof {
                    lemma_stmt_views(statements@);
                }
                if next < statements.len() {
                    self.push(Kont::Sequence { statements, next: next + 1, environment });
                    self.go(Control::Execute { statement: &statements[next], environment })
                } else {
                    self.go(Control::Done)
                }
            },
            Kont::WhileBody { condition, statement, environment } => {
                self.push(Kont::WhileTest { condition, statement, environment });
                self.go(Control::Evaluate { expression: condition, environment })
            },
            Kont::Finish => self.give(Value::Nil),
            _ => self.go(Control::Done),
        }
    }

    /// The step of `println` that deals with `values[next]`, or writes
    /// `line` where no value is left.
    fn print(&mut self, values: Vec<Value<'a>>, next: usize, line: String) -> (progress: Progress)
        ensures
            stepped(
                final(self)@,
                progress,
                machine::print(old(self)@, value_views(values@), next as nat, line@),
            ),
    {
        if next >= values.len() {
            return self.ask(Request::Print { line });
        }
        let mut line = line;
        if next > 0 {
            line.push(' ');
        }
        match &values[next] {
            Value::Number(number) => {
                let number = *number;
                self.push(Kont::PrintText { values, next, line });
                self.ask(Request::Format { number })
            },
            value => {
                let text = value.text();
                line.append(text.as_str());
                self.go(Control::Print { values, next: next + 1, line })
            },
        }
    }

    /// The value that a reply stands for.
    fn reply_value(reply: Reply) -> (value: Value<'a>)
        ensures
            value@ == machine::reply_value(reply@),
    {
        match reply {
            Reply::Number(number) => Value::Number(number),
            Reply::Bool(truth) => Value::Bool(truth),
            Reply::Text(text) => Value::String(text),
            Reply::Done => Value::Nil,
        }
    }

    /// The kind of a reply.
    fn kind_of(reply: &Reply) -> (kind: Expected)
        ensures
            kind == reply@.kind(),
    {
        match reply {
            Reply::Number(_) => Expected::Number,
            Reply::Bool(_) => Expected::Bool,
            Reply::Text(_) => Expected::Text,
            Reply::Done => Expected::Done,
        }
    }

    /// Makes one step.  `reply` is the reply to the request of the step
    /// before, where that step made one, and nothing else.
    pub fn step(&mut self, reply: Option<Reply>) -> (progress: Progress)
        requires
            old(self).wf(),
        ensures
            final(self).wf(),
            stepped(final(self)@, progress, machine::step(old(self)@, crate::host::reply_view(reply))),
            old(self)@.sound() ==> final(self)@.sound() && !is_scope_failure(progress@),
    {
        proof {
            machine::step_keeps_valid(old(self)@, crate::host::reply_view(reply));
            if old(self)@.sound() {
                step_keeps_sound(old(self)@, crate::host::reply_view(reply));
            }
        }
        let mut control = Control::Stopped;
        core::mem::swap(&mut self.control, &mut control);
        assert(self@ == old(self)@.with_control(ControlView::Stopped));
        match control {
            Control::Stopped => Progress::Finished,
            Control::Pending { expected } => match reply {
                Some(reply) => {
                    if Self::kind_of(&reply) == expected {
                        self.give(Self::reply_value(reply))
                    } else {
                        self.fail(RuntimeError::UnexpectedReply)
                    }
                },
                None => self.fail(RuntimeError::UnexpectedReply),
            },
            control => {
                if reply.is_some() {
                    return self.fail(RuntimeError::UnexpectedReply);
                }
                match control {
                    Control::Evaluate { expression, environment } => self.interpret_expr(
                        expression,
                        environment,
                    ),
                    Control::Execute { statement, environment } => self.interpret_stmt(
                        statement,
                        environment,
                    ),
                    Control::Return { value } => match self.pop() {
                        Some(kont) => self.apply(kont, value),
                        None => Progress::Finished,
                    },
                    Control::Done => match self.pop() {
                        Some(kont) => self.advance(kont),
                        None => Progress::Finished,
                    },
                    Control::Print { values, next, line } => self.print(values, next, line),
                    _ => Progress::Finished,
                }
            },
        }
    }
}

} // verus!
