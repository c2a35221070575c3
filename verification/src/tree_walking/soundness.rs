//! A machine that runs a well-scoped program finds every variable.
//!
//! The states in which the frames follow the scopes of the program that is
//! run are called sound here.  A step of a sound state gives a sound state,
//! and no step of a sound state fails because a variable is missing.

use crate::host::ReplyView;
use crate::tree_walking::ast::{ExprView, LiteralView, StmtView};
use crate::tree_walking::environment::{ancestor, bind, extend, lookup, FrameView};
use crate::tree_walking::errors::RuntimeErrorView;
use crate::tree_walking::machine::{
    advance, apply, bind_all, distance_of, evaluate, execute, invoke, loaded, print, step, ControlView, KontView, MachineView, ProgressView,
};
use crate::tree_walking::resolver::{defines, native_scope, Scope};
use crate::tree_walking::scoping::{
    defined_all, grows, holds, is_block, lemma_ancestor_grows,
    lemma_bind_all_grows, lemma_bind_grows, lemma_defined_all, lemma_extend_grows,
    lemma_grows_twice, lemma_models_grows, marked, models, resolved_at, scoped_expr, scoped_exprs,
    scoped_stmt, scoped_stmts, scopes_behind,
};
use crate::tree_walking::value::{CallableView, FunView, ValueView};
use vstd::prelude::*;

verus! {

/// What a continuation takes, and what the control or a continuation gives:
/// a value, or the end of a statement.
pub enum Kind {
    Value,
    Done,
}

/// What the continuation takes.
pub open spec fn kont_takes(kont: KontView) -> Kind {
    match kont {
        KontView::Sequence { .. } | KontView::WhileBody { .. } | KontView::Finish => Kind::Done,
        _ => Kind::Value,
    }
}

/// What the continuation gives to the one below it.
pub open spec fn kont_gives(kont: KontView) -> Kind {
    match kont {
        KontView::Discard
        | KontView::Declare { .. }
        | KontView::WhileTest { .. }
        | KontView::IfTest { .. }
        | KontView::Sequence { .. }
        | KontView::WhileBody { .. } => Kind::Done,
        _ => Kind::Value,
    }
}

/// What the control gives to the continuation on top of the stack.
pub open spec fn control_gives(control: ControlView) -> Kind {
    match control {
        ControlView::Execute { .. } | ControlView::Done => Kind::Done,
        _ => Kind::Value,
    }
}

/// The body of the function is well scoped under `scopes` with the
/// parameters in a scope of their own, and the frames follow `scopes` from
/// the frame on in which the function was declared.
pub open spec fn fun_scoped(
    frames: Seq<FrameView>,
    locals: Map<usize, usize>,
    fun: FunView,
    scopes: Seq<Scope>,
) -> bool {
    &&& models(frames, fun.environment, scopes, None)
    &&& scoped_stmts(
        locals,
        defined_all(scopes.push(Map::empty()), fun.parameters, 0),
        fun.body,
        0,
    )
}

/// A value that is a function of the program can be called.
pub open spec fn value_sound(frames: Seq<FrameView>, locals: Map<usize, usize>, value: ValueView) -> bool {
    match value {
        ValueView::Function(CallableView::Fun(fun)) => exists|scopes: Seq<Scope>| #[trigger]
            fun_scoped(frames, locals, fun, scopes),
        _ => true,
    }
}

pub open spec fn values_sound(
    frames: Seq<FrameView>,
    locals: Map<usize, usize>,
    values: Seq<ValueView>,
) -> bool {
    forall|i: int| 0 <= i < values.len() ==> value_sound(frames, locals, #[trigger] values[i])
}

/// The functions that the frames hold can be called.
pub open spec fn frames_sound(frames: Seq<FrameView>, locals: Map<usize, usize>) -> bool {
    forall|i: int, name: Seq<char>|
        0 <= i < frames.len() && #[trigger] frames[i].values.contains_key(name) ==> value_sound(
            frames,
            locals,
            frames[i].values[name],
        )
}

/// What the continuation holds is well scoped under `scopes`, and the frames
/// follow `scopes` from the frame of the continuation on.  For a sequence of
/// statements, `pending` is the name that a declaration above the sequence
/// is about to define.
pub open spec fn kont_scoped(
    frames: Seq<FrameView>,
    locals: Map<usize, usize>,
    kont: KontView,
    scopes: Seq<Scope>,
    pending: Option<Seq<char>>,
) -> bool {
    match kont {
        KontView::BinaryLeft { right, environment, .. } => models(frames, environment, scopes, None)
            && scoped_expr(locals, scopes, right),
        KontView::BinaryRight { left, .. } => value_sound(frames, locals, left),
        KontView::Ternary { true_case, false_case, environment } => models(
            frames,
            environment,
            scopes,
            None,
        ) && scoped_expr(locals, scopes, true_case) && scoped_expr(locals, scopes, false_case),
        KontView::Assign { name, id, environment } => distance_of(locals, id) matches Some(d)
            && ancestor(frames, environment, d) is Some,
        KontView::Callee { arguments, environment } => models(frames, environment, scopes, None)
            && scoped_exprs(locals, scopes, arguments, 0),
        KontView::Arguments { callee, arguments, values, environment } => value_sound(
            frames,
            locals,
            ValueView::Function(callee),
        ) && values_sound(frames, locals, values) && models(frames, environment, scopes, None)
            && scoped_exprs(locals, scopes, arguments, values.len() + 1),
        KontView::PrintText { values, .. } => values_sound(frames, locals, values),
        KontView::WhileTest { condition, statement, environment } => models(
            frames,
            environment,
            scopes,
            None,
        ) && scoped_expr(locals, scopes, condition) && is_block(statement) && scoped_stmt(
            locals,
            scopes,
            statement,
        ),
        KontView::WhileBody { condition, statement, environment } => models(
            frames,
            environment,
            scopes,
            None,
        ) && scoped_expr(locals, scopes, condition) && is_block(statement) && scoped_stmt(
            locals,
            scopes,
            statement,
        ),
        KontView::IfTest { true_case, false_case, environment } => models(
            frames,
            environment,
            scopes,
            None,
        ) && is_block(true_case) && scoped_stmt(locals, scopes, true_case) && (false_case matches Some(
            stmt,
        ) ==> is_block(stmt) && scoped_stmt(locals, scopes, stmt)),
        KontView::Sequence { statements, next, environment } => models(
            frames,
            environment,
            scopes,
            pending,
        ) && scoped_stmts(locals, scopes, statements, next),
        _ => true,
    }
}

#[verifier::opaque]
pub open spec fn kont_sound(
    frames: Seq<FrameView>,
    locals: Map<usize, usize>,
    kont: KontView,
    pending: Option<Seq<char>>,
) -> bool {
    exists|scopes: Seq<Scope>| #[trigger] kont_scoped(frames, locals, kont, scopes, pending)
}

/// What the control holds is well scoped under `scopes`, and the frames
/// follow `scopes` from the frame of the control on.
pub open spec fn control_scoped(
    frames: Seq<FrameView>,
    locals: Map<usize, usize>,
    control: ControlView,
    scopes: Seq<Scope>,
) -> bool {
    match control {
        ControlView::Evaluate { expression, environment } => models(
            frames,
            environment,
            scopes,
            None,
        ) && scoped_expr(locals, scopes, expression),
        ControlView::Execute { statement, environment } => models(
            frames,
            environment,
            scopes,
            None,
        ) && scoped_stmt(locals, scopes, statement),
        ControlView::Return { value } => value_sound(frames, locals, value),
        ControlView::Print { values, .. } => values_sound(frames, locals, values),
        _ => true,
    }
}

#[verifier::opaque]
pub open spec fn control_sound(
    frames: Seq<FrameView>,
    locals: Map<usize, usize>,
    control: ControlView,
) -> bool {
    exists|scopes: Seq<Scope>| #[trigger] control_scoped(frames, locals, control, scopes)
}

/// The name that the control is about to define, where the control is the
/// execution of a declaration.
pub open spec fn declared_by(control: ControlView) -> Option<Seq<char>> {
    match control {
        ControlView::Execute { statement: StmtView::Declaration { name, .. }, .. } => Some(name),
        ControlView::Execute { statement: StmtView::FunDeclaration { name, .. }, .. } => Some(name),
        _ => None,
    }
}

/// The name that the continuation is about to define, where it is the end
/// of a declaration.
pub open spec fn declared_above(kont: KontView) -> Option<Seq<char>> {
    match kont {
        KontView::Declare { name, .. } => Some(name),
        _ => None,
    }
}

/// Whether `kont` is a sequence of statements in the frame `environment`.
pub open spec fn is_sequence_in(kont: KontView, environment: nat) -> bool {
    kont matches KontView::Sequence { environment: frame, .. } && frame == environment
}

/// Whether one continuation may stand right above another: what it gives is
/// what the other takes, and a declaration stands above the statements that
/// it belongs to.
pub open spec fn fits(above: KontView, below: KontView) -> bool {
    &&& kont_takes(below) == kont_gives(above)
    &&& above matches KontView::Declare { environment, .. } ==> is_sequence_in(below, environment)
}

/// Whether the control may stand above a continuation.
pub open spec fn control_fits(control: ControlView, below: KontView) -> bool {
    &&& kont_takes(below) == control_gives(control)
    &&& (control matches ControlView::Execute { environment, .. } ==> (declared_by(control) is Some
        ==> is_sequence_in(below, environment)))
}

/// Whether the control may stand above an empty stack: it is no declaration.
pub open spec fn control_stands_alone(control: ControlView) -> bool {
    declared_by(control) is None
}

impl MachineView {
    /// The name that is about to be defined above the continuation `i`.
    pub open spec fn pending_at(self, i: int) -> Option<Seq<char>> {
        if i == self.stack.len() - 1 {
            declared_by(self.control)
        } else {
            declared_above(self.stack[i + 1])
        }
    }

    /// The continuation `i` fits the one below it; the lowest is no
    /// declaration.
    pub open spec fn linked(self, i: int) -> bool {
        if i >= 1 {
            fits(self.stack[i], self.stack[i - 1])
        } else {
            !(self.stack[i] is Declare)
        }
    }

    /// What the continuation `i` holds is well scoped under scopes that the
    /// frames follow.
    pub open spec fn slot_sound(self, i: int) -> bool {
        kont_sound(self.frames, self.locals, self.stack[i], self.pending_at(i))
    }

    /// What is given is what is taken, all the way down the stack, and a
    /// declaration stands right above the statements that it belongs to.
    pub open spec fn typed(self) -> bool {
        &&& if self.stack.len() > 0 {
            control_fits(self.control, self.stack.last())
        } else {
            control_stands_alone(self.control)
        }
        &&& forall|i: int| 0 <= i < self.stack.len() ==> #[trigger] self.linked(i)
    }

    /// What the continuations hold is well scoped, each under scopes that
    /// the frames follow.
    pub open spec fn stack_sound(self) -> bool {
        forall|i: int| 0 <= i < self.stack.len() ==> #[trigger] self.slot_sound(i)
    }

    /// The frames follow the scopes of the program that is run: whatever
    /// the state holds of the program is well scoped under scopes that the
    /// frames follow.  A state that is stopped is sound.
    pub open spec fn sound(self) -> bool {
        self.control is Stopped || {
            &&& self.valid()
            &&& frames_sound(self.frames, self.locals)
            &&& self.stack_sound()
            &&& control_sound(self.frames, self.locals, self.control)
            &&& self.typed()
        }
    }
}

/// A function that can be called can be called when the frames have grown.
pub proof fn lemma_value_sound_grows(
    before: Seq<FrameView>,
    after: Seq<FrameView>,
    locals: Map<usize, usize>,
    value: ValueView,
)
    requires
        grows(before, after),
        value_sound(before, locals, value),
    ensures
        value_sound(after, locals, value),
{
    if let ValueView::Function(CallableView::Fun(fun)) = value {
        let scopes = choose|scopes: Seq<Scope>| #[trigger] fun_scoped(before, locals, fun, scopes);
        lemma_models_grows(before, after, fun.environment, scopes, None);
        assert(fun_scoped(after, locals, fun, scopes));
    }
}

pub proof fn lemma_values_sound_grow(
    before: Seq<FrameView>,
    after: Seq<FrameView>,
    locals: Map<usize, usize>,
    values: Seq<ValueView>,
)
    requires
        grows(before, after),
        values_sound(before, locals, values),
    ensures
        values_sound(after, locals, values),
{
    assert forall|i: int| 0 <= i < values.len() implies value_sound(
        after,
        locals,
        #[trigger] values[i],
    ) by {
        lemma_value_sound_grows(before, after, locals, values[i]);
    }
}

/// What a continuation holds stays well scoped when the frames grow.
pub proof fn lemma_kont_sound_grows(
    before: Seq<FrameView>,
    after: Seq<FrameView>,
    locals: Map<usize, usize>,
    kont: KontView,
    pending: Option<Seq<char>>,
)
    requires
        grows(before, after),
        kont_sound(before, locals, kont, pending),
    ensures
        kont_sound(after, locals, kont, pending),
{
    reveal(kont_sound);
    let scopes = choose|scopes: Seq<Scope>| #[trigger]
        kont_scoped(before, locals, kont, scopes, pending);
    match kont {
        KontView::BinaryLeft { environment, .. } => {
            lemma_models_grows(before, after, environment, scopes, None);
        },
        KontView::BinaryRight { left, .. } => {
            lemma_value_sound_grows(before, after, locals, left);
        },
        KontView::Ternary { environment, .. } => {
            lemma_models_grows(before, after, environment, scopes, None);
        },
        KontView::Assign { name, id, environment } => {
            lemma_ancestor_grows(before, after, environment, distance_of(locals, id)->0);
        },
        KontView::Callee { environment, .. } => {
            lemma_models_grows(before, after, environment, scopes, None);
        },
        KontView::Arguments { callee, values, environment, .. } => {
            lemma_models_grows(before, after, environment, scopes, None);
            lemma_value_sound_grows(before, after, locals, ValueView::Function(callee));
            lemma_values_sound_grow(before, after, locals, values);
        },
        KontView::PrintText { values, .. } => {
            lemma_values_sound_grow(before, after, locals, values);
        },
        KontView::WhileTest { environment, .. } => {
            lemma_models_grows(before, after, environment, scopes, None);
        },
        KontView::WhileBody { environment, .. } => {
            lemma_models_grows(before, after, environment, scopes, None);
        },
        KontView::IfTest { environment, .. } => {
            lemma_models_grows(before, after, environment, scopes, None);
        },
        KontView::Sequence { environment, .. } => {
            lemma_models_grows(before, after, environment, scopes, pending);
        },
        _ => {},
    }
    assert(kont_scoped(after, locals, kont, scopes, pending));
}

/// The functions that the frames hold can still be called when a sound
/// value is bound.
pub proof fn lemma_bind_sound(
    frames: Seq<FrameView>,
    locals: Map<usize, usize>,
    frame: nat,
    name: Seq<char>,
    value: ValueView,
)
    requires
        frames_sound(frames, locals),
        value_sound(bind(frames, frame, name, value), locals, value),
    ensures
        frames_sound(bind(frames, frame, name, value), locals),
{
    let after = bind(frames, frame, name, value);
    lemma_bind_grows(frames, frame, name, value);
    assert forall|i: int, other: Seq<char>|
        0 <= i < after.len() && #[trigger] after[i].values.contains_key(other) implies value_sound(
        after,
        locals,
        after[i].values[other],
    ) by {
        if i == frame && other == name {
        } else {
            assert(frames[i].values.contains_key(other));
            assert(after[i].values[other] == frames[i].values[other]);
            lemma_value_sound_grows(frames, after, locals, frames[i].values[other]);
        }
    }
}

/// The functions that the frames hold can still be called when a frame is
/// added.
pub proof fn lemma_extend_sound(
    frames: Seq<FrameView>,
    locals: Map<usize, usize>,
    parent: Option<nat>,
)
    requires
        frames_sound(frames, locals),
    ensures
        frames_sound(extend(frames, parent), locals),
{
    let after = extend(frames, parent);
    lemma_extend_grows(frames, parent);
    assert forall|i: int, other: Seq<char>|
        0 <= i < after.len() && #[trigger] after[i].values.contains_key(other) implies value_sound(
        after,
        locals,
        after[i].values[other],
    ) by {
        if i < frames.len() {
            assert(frames[i].values.contains_key(other));
            lemma_value_sound_grows(frames, after, locals, frames[i].values[other]);
        }
    }
}

/// The functions that the frames hold can still be called when sound values
/// are bound.
pub proof fn lemma_bind_all_sound(
    frames: Seq<FrameView>,
    locals: Map<usize, usize>,
    frame: nat,
    names: Seq<Seq<char>>,
    values: Seq<ValueView>,
    from: nat,
)
    requires
        frames_sound(frames, locals),
        values_sound(frames, locals, values),
    ensures
        frames_sound(bind_all(frames, frame, names, values, from), locals),
    decreases names.len() - from,
{
    if from < names.len() && from < values.len() {
        let next = bind(frames, frame, names[from as int], values[from as int]);
        lemma_bind_grows(frames, frame, names[from as int], values[from as int]);
        lemma_value_sound_grows(frames, next, locals, values[from as int]);
        lemma_bind_sound(frames, locals, frame, names[from as int], values[from as int]);
        lemma_values_sound_grow(frames, next, locals, values);
        lemma_bind_all_sound(next, locals, frame, names, values, from + 1);
    }
}

/// A continuation that is no sequence of statements is sound whatever is
/// about to be defined above it.
pub proof fn lemma_pending_is_for_sequences(
    frames: Seq<FrameView>,
    locals: Map<usize, usize>,
    kont: KontView,
    before: Option<Seq<char>>,
    after: Option<Seq<char>>,
)
    requires
        kont_sound(frames, locals, kont, before),
        !(kont is Sequence) || before == after,
    ensures
        kont_sound(frames, locals, kont, after),
{
    reveal(kont_sound);
    let scopes = choose|scopes: Seq<Scope>| #[trigger]
        kont_scoped(frames, locals, kont, scopes, before);
    assert(kont_scoped(frames, locals, kont, scopes, after));
}

/// A sequence of statements above which a name was about to be defined is
/// sound with nothing pending once its frame holds the name.
pub proof fn lemma_pending_is_defined(
    frames: Seq<FrameView>,
    locals: Map<usize, usize>,
    kont: KontView,
    name: Seq<char>,
)
    requires
        kont_sound(frames, locals, kont, Some(name)),
        kont matches KontView::Sequence { environment, .. } ==> environment < frames.len()
            && frames[environment as int].values.contains_key(name),
    ensures
        kont_sound(frames, locals, kont, None),
{
    reveal(kont_sound);
    let scopes = choose|scopes: Seq<Scope>| #[trigger]
        kont_scoped(frames, locals, kont, scopes, Some(name));
    if let KontView::Sequence { environment, .. } = kont {
        assert forall|j: int, other: Seq<char>|
            0 <= j < scopes.len() && #[trigger] defines(scopes[j], other) implies holds(
            frames,
            environment,
            (scopes.len() - 1 - j) as nat,
            other,
        ) by {
            if j == scopes.len() - 1 && other == name {
                assert(ancestor(frames, environment, 0) == Some(environment));
            }
        }
    }
    assert(kont_scoped(frames, locals, kont, scopes, None));
}

/// A state is sound where it stems from a sound state by a change at the top
/// of the stack: the continuations below `kept` are as before, the frames
/// have grown, and what stands from `kept - 1` on is sound and fits.
pub proof fn lemma_changed_on_top(before: MachineView, after: MachineView, kept: int)
    requires
        before.sound(),
        !(before.control is Stopped),
        after.valid(),
        after.locals == before.locals,
        grows(before.frames, after.frames),
        frames_sound(after.frames, after.locals),
        0 <= kept <= before.stack.len(),
        kept <= after.stack.len(),
        after.stack.take(kept) == before.stack.take(kept),
        forall|i: int| 0 <= i && kept - 1 <= i < after.stack.len() ==> #[trigger] after.slot_sound(i),
        control_sound(after.frames, after.locals, after.control),
        if after.stack.len() > 0 {
            control_fits(after.control, after.stack.last())
        } else {
            control_stands_alone(after.control)
        },
        forall|i: int| kept <= i < after.stack.len() ==> #[trigger] after.linked(i),
    ensures
        after.sound(),
{
    if !(after.control is Stopped) {
        assert forall|i: int| 0 <= i < after.stack.len() implies #[trigger] after.slot_sound(i) by {
            if i < kept - 1 {
                assert(after.stack[i] == after.stack.take(kept)[i]);
                assert(before.stack[i] == before.stack.take(kept)[i]);
                assert(after.stack[i + 1] == after.stack.take(kept)[i + 1]);
                assert(before.stack[i + 1] == before.stack.take(kept)[i + 1]);
                assert(before.slot_sound(i));
                lemma_kont_sound_grows(
                    before.frames,
                    after.frames,
                    before.locals,
                    before.stack[i],
                    before.pending_at(i),
                );
            }
        }
        assert forall|i: int| 0 <= i < after.stack.len() implies #[trigger] after.linked(i) by {
            if i < kept {
                assert(after.stack[i] == after.stack.take(kept)[i]);
                assert(before.stack[i] == before.stack.take(kept)[i]);
                if i >= 1 {
                    assert(after.stack[i - 1] == after.stack.take(kept)[i - 1]);
                    assert(before.stack[i - 1] == before.stack.take(kept)[i - 1]);
                }
                assert(before.linked(i));
            }
        }
    }
}

/// Whether the progress is a failure to find a variable.
pub open spec fn is_scope_failure(progress: ProgressView) -> bool {
    progress matches ProgressView::Failed(error) && (error is UndefinedIdentifier
        || error is AssignmentToUndeclaredVariable)
}

/// A continuation that takes no part in scoping is sound.
pub proof fn lemma_plain_kont_sound(
    frames: Seq<FrameView>,
    locals: Map<usize, usize>,
    kont: KontView,
    pending: Option<Seq<char>>,
)
    requires
        kont is Unary || kont is Truthy || kont is Discard || kont is Finish || kont is Declare,
    ensures
        kont_sound(frames, locals, kont, pending),
{
    reveal(kont_sound);
    assert(kont_scoped(frames, locals, kont, Seq::empty(), pending));
}

/// A control that takes no part in scoping is sound.
pub proof fn lemma_plain_control_sound(
    frames: Seq<FrameView>,
    locals: Map<usize, usize>,
    control: ControlView,
)
    requires
        control is Done || control is Pending || control is Stopped,
    ensures
        control_sound(frames, locals, control),
{
    reveal(control_sound);
    assert(control_scoped(frames, locals, control, Seq::empty()));
}

/// The control that gives a sound value is sound.
pub proof fn lemma_return_sound(frames: Seq<FrameView>, locals: Map<usize, usize>, value: ValueView)
    requires
        value_sound(frames, locals, value),
    ensures
        control_sound(frames, locals, ControlView::Return { value }),
{
    reveal(control_sound);
    assert(control_scoped(frames, locals, ControlView::Return { value }, Seq::empty()));
}

/// A state is sound where it stems from a sound state by a new control and
/// a continuation more, with the frames as they were.
pub proof fn lemma_pushed(before: MachineView, kont: KontView, control: ControlView)
    requires
        before.sound(),
        !(before.control is Stopped),
        before.push(kont).with_control(control).valid(),
        kont_sound(before.frames, before.locals, kont, declared_by(control)),
        declared_above(kont) == declared_by(before.control),
        control_sound(before.frames, before.locals, control),
        control_fits(control, kont),
        kont_gives(kont) == control_gives(before.control),
        kont matches KontView::Declare { environment, .. } ==> before.stack.len() > 0
            && is_sequence_in(before.stack.last(), environment),
    ensures
        before.push(kont).with_control(control).sound(),
{
    let after = before.push(kont).with_control(control);
    let count = before.stack.len() as int;
    assert(after.stack.take(count) == before.stack.take(count));
    assert forall|i: int| 0 <= i && count - 1 <= i < after.stack.len() implies #[trigger] after.slot_sound(
        i,
    ) by {
        if i == count - 1 {
            assert(before.slot_sound(i));
            assert(after.stack[i] == before.stack[i]);
        }
    }
    assert forall|i: int| count <= i < after.stack.len() implies #[trigger] after.linked(i) by {}
    lemma_changed_on_top(before, after, count);
}

/// A state is sound where it stems from a sound state by a new control, with
/// the stack as it was and frames that have grown.
pub proof fn lemma_went_on(before: MachineView, after: MachineView)
    requires
        before.sound(),
        !(before.control is Stopped),
        after.valid(),
        after.locals == before.locals,
        after.stack == before.stack,
        grows(before.frames, after.frames),
        frames_sound(after.frames, after.locals),
        control_sound(after.frames, after.locals, after.control),
        before.stack.len() > 0 ==> kont_sound(
            after.frames,
            after.locals,
            before.stack.last(),
            declared_by(after.control),
        ) && control_fits(after.control, before.stack.last()),
        before.stack.len() == 0 ==> control_stands_alone(after.control),
    ensures
        after.sound(),
{
    let count = before.stack.len() as int;
    assert(after.stack.take(count) == before.stack.take(count));
    lemma_changed_on_top(before, after, count);
}

/// A state is sound where it stems from a sound state by a new control and
/// a continuation less, with frames that have grown.
pub proof fn lemma_popped(before: MachineView, after: MachineView)
    requires
        before.sound(),
        !(before.control is Stopped),
        before.stack.len() > 0,
        after.valid(),
        after.locals == before.locals,
        after.stack == before.stack.drop_last(),
        grows(before.frames, after.frames),
        frames_sound(after.frames, after.locals),
        control_sound(after.frames, after.locals, after.control),
        after.stack.len() > 0 ==> kont_sound(
            after.frames,
            after.locals,
            after.stack.last(),
            declared_by(after.control),
        ) && control_fits(after.control, after.stack.last()),
        after.stack.len() == 0 ==> control_stands_alone(after.control),
    ensures
        after.sound(),
{
    let count = after.stack.len() as int;
    assert(after.stack.take(count) == before.stack.take(count));
    lemma_changed_on_top(before, after, count);
}

/// A state is sound where it stems from a sound state by a new control and
/// another continuation on top, with frames that have grown.
pub proof fn lemma_swapped(before: MachineView, after: MachineView, kont: KontView)
    requires
        before.sound(),
        !(before.control is Stopped),
        before.stack.len() > 0,
        after.valid(),
        after.locals == before.locals,
        after.stack == before.stack.drop_last().push(kont),
        grows(before.frames, after.frames),
        frames_sound(after.frames, after.locals),
        control_sound(after.frames, after.locals, after.control),
        kont_sound(after.frames, after.locals, kont, declared_by(after.control)),
        control_fits(after.control, kont),
        kont_gives(kont) == kont_gives(before.stack.last()),
        !(kont is Declare),
        declared_above(before.stack.last()) is None,
    ensures
        after.sound(),
{
    let count = before.stack.len() - 1;
    assert(after.stack.take(count) == before.stack.take(count));
    assert forall|i: int| 0 <= i && count - 1 <= i < after.stack.len() implies #[trigger] after.slot_sound(
        i,
    ) by {
        if i == count - 1 {
            assert(before.slot_sound(i));
            assert(after.stack[i] == before.stack[i]);
            lemma_kont_sound_grows(
                before.frames,
                after.frames,
                before.locals,
                before.stack[i],
                before.pending_at(i),
            );
        }
    }
    assert forall|i: int| count <= i < after.stack.len() implies #[trigger] after.linked(i) by {
        assert(before.linked(count));
        if count >= 1 {
            assert(after.stack[count - 1] == before.stack[count - 1]);
        }
    }
    lemma_changed_on_top(before, after, count);
}

/// Where the frames follow scopes, a variable that is resolved under the
/// scopes is found.
pub proof fn lemma_resolved_is_found(
    frames: Seq<FrameView>,
    locals: Map<usize, usize>,
    environment: nat,
    scopes: Seq<Scope>,
    name: Seq<char>,
    id: nat,
)
    requires
        models(frames, environment, scopes, None),
        resolved_at(locals, scopes, name, id),
    ensures
        distance_of(locals, id) matches Some(d) && ancestor(frames, environment, d) is Some
            && lookup(frames, environment, name, d) is Some,
{
    let d = distance_of(locals, id)->0;
    let j = scopes.len() - 1 - d;
    assert(defines(scopes[j], name));
    assert(holds(frames, environment, (scopes.len() - 1 - j) as nat, name));
}

/// The first step of the evaluation of a well-scoped expression gives a
/// sound state, and finds the variable where the expression is one.
pub proof fn lemma_evaluate_sound(state: MachineView, expression: ExprView, environment: nat)
    requires
        state.sound(),
        state.control == (ControlView::Evaluate { expression, environment }),
    ensures
        evaluate(state, expression, environment).state.sound(),
        !is_scope_failure(evaluate(state, expression, environment).progress),
{
    reveal(control_sound);
    reveal(kont_sound);
    let frames = state.frames;
    let locals = state.locals;
    let scopes = choose|scopes: Seq<Scope>| #[trigger]
        control_scoped(frames, locals, state.control, scopes);
    crate::tree_walking::machine::lemma_evaluate_valid(state, expression, environment);
    match expression {
        ExprView::Unary { operator, expr } => {
            let kont = KontView::Unary { operator };
            let control = ControlView::Evaluate { expression: *expr, environment };
            lemma_plain_kont_sound(frames, locals, kont, None);
            assert(control_scoped(frames, locals, control, scopes));
            lemma_pushed(state, kont, control);
        },
        ExprView::Binary { operator, left, right } => {
            let kont = KontView::BinaryLeft { operator, right: *right, environment };
            let control = ControlView::Evaluate { expression: *left, environment };
            assert(kont_scoped(frames, locals, kont, scopes, None));
            assert(control_scoped(frames, locals, control, scopes));
            lemma_pushed(state, kont, control);
        },
        ExprView::Ternary { conditional, true_case, false_case } => {
            let kont = KontView::Ternary {
                true_case: *true_case,
                false_case: *false_case,
                environment,
            };
            let control = ControlView::Evaluate { expression: *conditional, environment };
            assert(kont_scoped(frames, locals, kont, scopes, None));
            assert(control_scoped(frames, locals, control, scopes));
            lemma_pushed(state, kont, control);
        },
        ExprView::Grouping { expr } => {
            let control = ControlView::Evaluate { expression: *expr, environment };
            assert(control_scoped(frames, locals, control, scopes));
            lemma_same_frames(state, control);
        },
        ExprView::Literal { value } => {
            match value {
                LiteralView::Identifier { name, id } => {
                    lemma_resolved_is_found(frames, locals, environment, scopes, name, id);
                    let d = distance_of(locals, id)->0;
                    crate::tree_walking::machine::lemma_ancestor_exists(frames, environment, d);
                    let found = lookup(frames, environment, name, d)->0;
                    assert(value_sound(frames, locals, found));
                    lemma_return_sound(frames, locals, found);
                    lemma_same_frames(state, ControlView::Return { value: found });
                },
                LiteralView::Number { lexeme } => {
                    let control = ControlView::Pending {
                        expected: crate::host::Expected::Number,
                    };
                    lemma_plain_control_sound(frames, locals, control);
                    lemma_same_frames(state, control);
                },
                LiteralView::True => {
                    lemma_return_sound(frames, locals, ValueView::Bool(true));
                    lemma_same_frames(state, ControlView::Return { value: ValueView::Bool(true) });
                },
                LiteralView::False => {
                    lemma_return_sound(frames, locals, ValueView::Bool(false));
                    lemma_same_frames(state, ControlView::Return { value: ValueView::Bool(false) });
                },
                LiteralView::Nil => {
                    lemma_return_sound(frames, locals, ValueView::Nil);
                    lemma_same_frames(state, ControlView::Return { value: ValueView::Nil });
                },
                LiteralView::String { value } => {
                    lemma_return_sound(frames, locals, ValueView::String(value));
                    lemma_same_frames(state, ControlView::Return { value: ValueView::String(value) });
                },
            }
        },
        ExprView::Assignment { name, expression, id } => {
            let kont = KontView::Assign { name, id, environment };
            let control = ControlView::Evaluate { expression: *expression, environment };
            lemma_resolved_is_found(frames, locals, environment, scopes, name, id);
            assert(kont_scoped(frames, locals, kont, scopes, None));
            assert(control_scoped(frames, locals, control, scopes));
            lemma_pushed(state, kont, control);
        },
        ExprView::Call { function, arguments } => {
            let kont = KontView::Callee { arguments, environment };
            let control = ControlView::Evaluate { expression: *function, environment };
            assert(kont_scoped(frames, locals, kont, scopes, None));
            assert(control_scoped(frames, locals, control, scopes));
            lemma_pushed(state, kont, control);
        },
    }
}

/// A state is sound where it stems from a sound state by a new control that
/// gives what the old one gave and declares nothing, with the stack and the
/// frames as they were.
pub proof fn lemma_same_frames(before: MachineView, control: ControlView)
    requires
        before.sound(),
        !(before.control is Stopped),
        before.with_control(control).valid(),
        control_sound(before.frames, before.locals, control),
        control_gives(control) == control_gives(before.control),
        declared_by(control) is None,
        declared_by(before.control) is None,
    ensures
        before.with_control(control).sound(),
{
    let after = before.with_control(control);
    lemma_stays(before.frames);
    if before.stack.len() > 0 {
        assert(before.slot_sound(before.stack.len() - 1));
    }
    lemma_went_on(before, after);
}

/// Frames grow when they stay as they are.
pub proof fn lemma_stays(frames: Seq<FrameView>)
    ensures
        grows(frames, frames),
{
}

/// Frames that follow scopes follow them with a name declared that is not
/// defined yet.
pub proof fn lemma_declared_models(
    frames: Seq<FrameView>,
    environment: nat,
    scopes: Seq<Scope>,
    name: Seq<char>,
)
    requires
        models(frames, environment, scopes, None),
    ensures
        models(frames, environment, marked(scopes, name, false), None),
{
    let after = marked(scopes, name, false);
    assert forall|j: int, other: Seq<char>|
        0 <= j < after.len() && #[trigger] defines(after[j], other) implies holds(
        frames,
        environment,
        (after.len() - 1 - j) as nat,
        other,
    ) by {
        assert(defines(scopes[j], other));
    }
}

/// Frames that follow scopes follow them with a name defined, but for the
/// name; and for the name too where the frame holds it.
pub proof fn lemma_defined_models(
    frames: Seq<FrameView>,
    environment: nat,
    scopes: Seq<Scope>,
    name: Seq<char>,
    skip: Option<Seq<char>>,
)
    requires
        models(frames, environment, scopes, None),
        skip == Some(name) || frames[environment as int].values.contains_key(name),
    ensures
        models(frames, environment, marked(marked(scopes, name, false), name, true), skip),
{
    let after = marked(marked(scopes, name, false), name, true);
    assert forall|j: int, other: Seq<char>|
        0 <= j < after.len() && #[trigger] defines(after[j], other) && !(j == after.len() - 1
            && skip == Some(other)) implies holds(
        frames,
        environment,
        (after.len() - 1 - j) as nat,
        other,
    ) by {
        if j == after.len() - 1 && other == name {
            assert(ancestor(frames, environment, 0) == Some(environment));
        } else {
            assert(defines(scopes[j], other));
        }
    }
}

/// A frame below a frame that follows scopes follows the scopes with one
/// more inside, where it holds what the one more defines.
pub proof fn lemma_child_models(
    before: Seq<FrameView>,
    after: Seq<FrameView>,
    parent: nat,
    child: nat,
    scopes: Seq<Scope>,
    inner: Scope,
)
    requires
        models(before, parent, scopes, None),
        grows(before, after),
        child < after.len(),
        after[child as int].parent == Some(parent),
        forall|name: Seq<char>|
            defines(inner, name) ==> #[trigger] after[child as int].values.contains_key(name),
    ensures
        models(after, child, scopes.push(inner), None),
{
    let all = scopes.push(inner);
    assert forall|j: int, name: Seq<char>|
        0 <= j < all.len() && #[trigger] defines(all[j], name) implies holds(
        after,
        child,
        (all.len() - 1 - j) as nat,
        name,
    ) by {
        if j == all.len() - 1 {
            assert(ancestor(after, child, 0) == Some(child));
        } else {
            assert(defines(scopes[j], name));
            let distance = (scopes.len() - 1 - j) as nat;
            assert(holds(before, parent, distance, name));
            lemma_ancestor_grows(before, after, parent, distance);
            assert(ancestor(after, child, distance + 1) == ancestor(after, parent, distance));
        }
    }
}

/// A function whose body is well scoped under scopes that the frames follow
/// can be called.
pub proof fn lemma_fun_is_sound(
    frames: Seq<FrameView>,
    locals: Map<usize, usize>,
    fun: FunView,
    scopes: Seq<Scope>,
)
    requires
        fun_scoped(frames, locals, fun, scopes),
    ensures
        value_sound(frames, locals, ValueView::Function(CallableView::Fun(fun))),
{
    assert(exists|s: Seq<Scope>| #[trigger] fun_scoped(frames, locals, fun, s));
    let v = ValueView::Function(CallableView::Fun(fun));
    assert(v is Function);
    assert(v->Function_0 is Fun);
    assert(v->Function_0->Fun_0 == fun);
    assert(value_sound(frames, locals, v) == (exists|s: Seq<Scope>| #[trigger] fun_scoped(frames, locals, fun, s)));
}

/// The first step of the execution of a well-scoped statement gives a sound
/// state.
pub proof fn lemma_execute_sound(state: MachineView, statement: StmtView, environment: nat)
    requires
        state.sound(),
        state.control == (ControlView::Execute { statement, environment }),
    ensures
        execute(state, statement, environment).state.sound(),
        !is_scope_failure(execute(state, statement, environment).progress),
{
    reveal(control_sound);
    reveal(kont_sound);
    let frames = state.frames;
    let locals = state.locals;
    let scopes = choose|scopes: Seq<Scope>| #[trigger]
        control_scoped(frames, locals, state.control, scopes);
    crate::tree_walking::machine::lemma_execute_valid(state, statement, environment);
    let after = execute(state, statement, environment).state;
    match statement {
        StmtView::Expression { expression } => {
            let control = ControlView::Evaluate { expression, environment };
            lemma_plain_kont_sound(frames, locals, KontView::Discard, None);
            assert(control_scoped(frames, locals, control, scopes));
            lemma_pushed(state, KontView::Discard, control);
        },
        StmtView::Declaration { name, initializer } => {
            let kont = KontView::Declare { name, environment };
            let control = ControlView::Evaluate { expression: initializer, environment };
            lemma_plain_kont_sound(frames, locals, kont, None);
            lemma_declared_models(frames, environment, scopes, name);
            assert(control_scoped(frames, locals, control, marked(scopes, name, false)));
            lemma_pushed(state, kont, control);
        },
        StmtView::FunDeclaration { name, parameters, body } => {
            let fun = FunView { parameters, body, name, environment };
            let value = ValueView::Function(CallableView::Fun(fun));
            lemma_bind_grows(frames, environment, name, value);
            lemma_models_grows(frames, after.frames, environment, scopes, None);
            lemma_defined_models(after.frames, environment, scopes, name, None);
            assert(fun_scoped(
                after.frames,
                locals,
                fun,
                marked(marked(scopes, name, false), name, true),
            ));
            assert(after.frames == bind(frames, environment, name, value));
            let witness = marked(marked(scopes, name, false), name, true);
            assert(fun_scoped(after.frames, locals, fun, witness));
            lemma_fun_is_sound(after.frames, locals, fun, witness);
            assert(value_sound(after.frames, locals, value));
            lemma_bind_sound(frames, locals, environment, name, value);
            lemma_plain_control_sound(after.frames, locals, ControlView::Done);
            let top = state.stack.last();
            assert(state.slot_sound(state.stack.len() - 1));
            lemma_kont_sound_grows(frames, after.frames, locals, top, Some(name));
            lemma_pending_is_defined(after.frames, locals, top, name);
            lemma_went_on(state, after);
        },
        StmtView::Block { statements } => {
            let child = frames.len();
            let kont = KontView::Sequence { statements, next: 0, environment: child };
            let count = state.stack.len() as int;
            lemma_extend_grows(frames, Some(environment));
            lemma_extend_sound(frames, locals, Some(environment));
            lemma_child_models(frames, after.frames, environment, child, scopes, Map::empty());
            assert(kont_scoped(after.frames, locals, kont, scopes.push(Map::empty()), None));
            lemma_plain_control_sound(after.frames, locals, ControlView::Done);
            assert(after.stack.take(count) == state.stack.take(count));
            assert forall|i: int|
                0 <= i && count - 1 <= i < after.stack.len() implies #[trigger] after.slot_sound(
                i,
            ) by {
                if i == count - 1 {
                    assert(state.slot_sound(i));
                    assert(after.stack[i] == state.stack[i]);
                    lemma_kont_sound_grows(frames, after.frames, locals, state.stack[i], None);
                }
            }
            assert forall|i: int| count <= i < after.stack.len() implies #[trigger] after.linked(
                i,
            ) by {}
            lemma_changed_on_top(state, after, count);
        },
        StmtView::While { condition, statement } => {
            let kont = KontView::WhileTest { condition, statement: *statement, environment };
            let control = ControlView::Evaluate { expression: condition, environment };
            assert(kont_scoped(frames, locals, kont, scopes, None));
            assert(control_scoped(frames, locals, control, scopes));
            lemma_pushed(state, kont, control);
        },
        StmtView::If { condition, true_case, false_case } => {
            let kont = KontView::IfTest {
                true_case: *true_case,
                false_case: match false_case {
                    Some(statement) => Some(*statement),
                    None => None,
                },
                environment,
            };
            let control = ControlView::Evaluate { expression: condition, environment };
            assert(kont_scoped(frames, locals, kont, scopes, None));
            assert(control_scoped(frames, locals, control, scopes));
            lemma_pushed(state, kont, control);
        },
    }
}

/// A state is sound where it stems from a sound state by taking the
/// continuation off the top and a new control that gives to the one below
/// what that continuation gave, with the frames as they were.
pub proof fn lemma_passed_on(before: MachineView, control: ControlView)
    requires
        before.sound(),
        !(before.control is Stopped),
        before.stack.len() > 0,
        before.pop().with_control(control).valid(),
        control_sound(before.frames, before.locals, control),
        control_gives(control) == kont_gives(before.stack.last()),
        declared_by(control) is None,
        !(before.stack.last() is Declare),
    ensures
        before.pop().with_control(control).sound(),
{
    let after = before.pop().with_control(control);
    let top = before.stack.len() - 1;
    assert(before.linked(top));
    if top >= 1 {
        assert(before.slot_sound(top - 1));
        assert(after.stack.last() == before.stack[top - 1]);
    }
    lemma_popped(before, after);
}

/// The step that applies a binary operator to sound values gives a sound
/// state.
pub proof fn lemma_binary_sound(
    before: MachineView,
    operator: crate::tree_walking::ast::BinaryOperator,
    left: ValueView,
    right: ValueView,
)
    requires
        before.sound(),
        before.control == (ControlView::Return { value: right }),
        before.stack.len() > 0,
        before.stack.last() == (KontView::BinaryRight { operator, left }),
        crate::tree_walking::machine::binary(before.pop(), operator, left, right).state.valid(),
    ensures
        crate::tree_walking::machine::binary(before.pop(), operator, left, right).state.sound(),
        !is_scope_failure(
            crate::tree_walking::machine::binary(before.pop(), operator, left, right).progress,
        ),
{
    reveal(control_sound);
    let frames = before.frames;
    let locals = before.locals;
    let after = crate::tree_walking::machine::binary(before.pop(), operator, left, right).state;
    let scopes = choose|scopes: Seq<Scope>| #[trigger]
        control_scoped(frames, locals, before.control, scopes);
    match after.control {
        ControlView::Return { value } => {
            lemma_return_sound(frames, locals, value);
            lemma_passed_on(before, after.control);
        },
        ControlView::Pending { .. } => {
            lemma_plain_control_sound(frames, locals, after.control);
            lemma_passed_on(before, after.control);
        },
        _ => {},
    }
}

/// The frame of a call follows the scopes of the function that is called,
/// with the parameters in a scope of their own.
pub proof fn lemma_call_models(
    frames: Seq<FrameView>,
    locals: Map<usize, usize>,
    fun: FunView,
    values: Seq<ValueView>,
    scopes: Seq<Scope>,
)
    requires
        fun_scoped(frames, locals, fun, scopes),
        values.len() == fun.parameters.len(),
    ensures
        models(
            bind_all(
                extend(frames, Some(fun.environment)),
                frames.len(),
                fun.parameters,
                values,
                0,
            ),
            frames.len(),
            defined_all(scopes.push(Map::empty()), fun.parameters, 0),
            None,
        ),
        grows(
            frames,
            bind_all(
                extend(frames, Some(fun.environment)),
                frames.len(),
                fun.parameters,
                values,
                0,
            ),
        ),
{
    let child = frames.len();
    let opened = extend(frames, Some(fun.environment));
    let bound = bind_all(opened, child, fun.parameters, values, 0);
    let inside = defined_all(scopes.push(Map::empty()), fun.parameters, 0);
    lemma_extend_grows(frames, Some(fun.environment));
    lemma_bind_all_grows(opened, child, fun.parameters, values, 0);
    lemma_grows_twice(frames, opened, bound);
    lemma_defined_all(scopes.push(Map::empty()), fun.parameters, 0);
    assert(inside =~= scopes.push(inside.last())) by {
        assert forall|j: int| 0 <= j < scopes.len() implies inside[j] == scopes[j] by {
            assert(inside[j] == scopes.push(Map::empty())[j]);
        }
    }
    assert(bound[child as int].parent == opened[child as int].parent);
    assert forall|name: Seq<char>| defines(inside.last(), name) implies #[trigger] bound[child as int].values.contains_key(
        name,
    ) by {
        assert(!defines(scopes.push(Map::empty()).last(), name));
        let i = choose|i: int| 0 <= i < fun.parameters.len() && #[trigger] fun.parameters[i] == name;
        assert(bound[child as int].values.contains_key(fun.parameters[i]));
    }
    lemma_child_models(frames, bound, fun.environment, child, scopes, inside.last());
}

/// Calling a sound function with sound arguments gives a sound state.
pub proof fn lemma_invoke_sound(before: MachineView, callee: CallableView, values: Seq<ValueView>)
    requires
        before.sound(),
        !(before.control is Stopped),
        before.stack.len() > 0,
        kont_gives(before.stack.last()) == Kind::Value,
        value_sound(before.frames, before.locals, ValueView::Function(callee)),
        values_sound(before.frames, before.locals, values),
        invoke(before.pop(), callee, values).state.valid(),
    ensures
        invoke(before.pop(), callee, values).state.sound(),
        !is_scope_failure(invoke(before.pop(), callee, values).progress),
{
    reveal(control_sound);
    reveal(kont_sound);
    let frames = before.frames;
    let locals = before.locals;
    let after = invoke(before.pop(), callee, values).state;
    match callee {
        CallableView::NativeClock => {
            lemma_plain_control_sound(frames, locals, after.control);
            lemma_passed_on(before, after.control);
        },
        CallableView::NativePrintln => {
            assert(control_scoped(frames, locals, after.control, Seq::empty()));
            lemma_passed_on(before, after.control);
        },
        CallableView::Fun(fun) => {
            if values.len() == fun.parameters.len() {
                let scopes = choose|scopes: Seq<Scope>| #[trigger]
                    fun_scoped(frames, locals, fun, scopes);
                let child = frames.len();
                let opened = extend(frames, Some(fun.environment));
                let inside = defined_all(scopes.push(Map::empty()), fun.parameters, 0);
                let kept = before.stack.len() - 1;
                lemma_call_models(frames, locals, fun, values, scopes);
                lemma_extend_grows(frames, Some(fun.environment));
                lemma_extend_sound(frames, locals, Some(fun.environment));
                lemma_values_sound_grow(frames, opened, locals, values);
                lemma_bind_all_sound(opened, locals, child, fun.parameters, values, 0);
                let body = KontView::Sequence {
                    statements: fun.body,
                    next: 0,
                    environment: child,
                };
                assert(after.stack == before.stack.drop_last().push(KontView::Finish).push(body));
                assert(kont_scoped(after.frames, locals, body, inside, None));
                lemma_plain_kont_sound(after.frames, locals, KontView::Finish, None);
                lemma_plain_control_sound(after.frames, locals, ControlView::Done);
                assert(after.stack.take(kept) == before.stack.take(kept));
                assert(before.linked(kept));
                assert forall|i: int|
                    0 <= i && kept - 1 <= i < after.stack.len() implies #[trigger] after.slot_sound(
                    i,
                ) by {
                    if i == kept - 1 {
                        assert(before.slot_sound(i));
                        assert(after.stack[i] == before.stack[i]);
                        lemma_kont_sound_grows(
                            frames,
                            after.frames,
                            locals,
                            before.stack[i],
                            before.pending_at(i),
                        );
                        lemma_pending_is_for_sequences(
                            after.frames,
                            locals,
                            before.stack[i],
                            before.pending_at(i),
                            None,
                        );
                    }
                }
                assert forall|i: int| kept <= i < after.stack.len() implies #[trigger] after.linked(
                    i,
                ) by {
                    if kept >= 1 {
                        assert(after.stack[kept - 1] == before.stack[kept - 1]);
                    }
                }
                lemma_changed_on_top(before, after, kept);
            }
        },
    }
}

/// Sound values with a sound value behind them are sound.
pub proof fn lemma_values_sound_push(
    frames: Seq<FrameView>,
    locals: Map<usize, usize>,
    values: Seq<ValueView>,
    value: ValueView,
)
    requires
        values_sound(frames, locals, values),
        value_sound(frames, locals, value),
    ensures
        values_sound(frames, locals, values.push(value)),
{
    assert forall|i: int| 0 <= i < values.push(value).len() implies value_sound(
        frames,
        locals,
        #[trigger] values.push(value)[i],
    ) by {
        if i < values.len() {
            assert(values.push(value)[i] == values[i]);
        }
    }
}

/// A state is sound where it stems from a sound state by another
/// continuation on top and a new control, with the frames as they were.
pub proof fn lemma_replaced(before: MachineView, kont: KontView, control: ControlView)
    requires
        before.sound(),
        !(before.control is Stopped),
        before.stack.len() > 0,
        before.pop().push(kont).with_control(control).valid(),
        control_sound(before.frames, before.locals, control),
        kont_sound(before.frames, before.locals, kont, declared_by(control)),
        control_fits(control, kont),
        kont_gives(kont) == kont_gives(before.stack.last()),
        !(kont is Declare),
        !(before.stack.last() is Declare),
    ensures
        before.pop().push(kont).with_control(control).sound(),
{
    let after = before.pop().push(kont).with_control(control);
    lemma_stays(before.frames);
    lemma_swapped(before, after, kont);
}

/// The step that hands a sound value to the continuation on top of the
/// stack gives a sound state, and finds the variable where the continuation
/// assigns to one.
pub proof fn lemma_apply_sound(state: MachineView, value: ValueView)
    requires
        state.sound(),
        state.control == (ControlView::Return { value }),
        state.stack.len() > 0,
    ensures
        apply(state.pop(), state.stack.last(), value).state.sound(),
        !is_scope_failure(apply(state.pop(), state.stack.last(), value).progress),
{
    reveal(control_sound);
    reveal(kont_sound);
    let frames = state.frames;
    let locals = state.locals;
    let top = state.stack.len() - 1;
    let kont = state.stack.last();
    let after = apply(state.pop(), kont, value).state;
    crate::tree_walking::machine::lemma_pop_valid(state);
    crate::tree_walking::machine::lemma_apply_valid(state.pop(), kont, value);
    assert(state.slot_sound(top));
    assert(state.linked(top));
    let found = choose|found: Seq<Scope>| #[trigger]
        control_scoped(frames, locals, state.control, found);
    assert(value_sound(frames, locals, value));
    let scopes = choose|scopes: Seq<Scope>| #[trigger]
        kont_scoped(frames, locals, kont, scopes, None);
    match kont {
        KontView::Unary { .. } | KontView::Truthy | KontView::PrintText { .. } | KontView::Discard => {
            match after.control {
                ControlView::Return { value: given } => {
                    lemma_return_sound(frames, locals, given);
                    lemma_passed_on(state, after.control);
                },
                ControlView::Pending { .. } | ControlView::Done => {
                    lemma_plain_control_sound(frames, locals, after.control);
                    lemma_passed_on(state, after.control);
                },
                ControlView::Print { .. } => {
                    assert(control_scoped(frames, locals, after.control, Seq::empty()));
                    lemma_passed_on(state, after.control);
                },
                _ => {},
            }
        },
        KontView::BinaryLeft { operator, right, environment } => {
            let control = ControlView::Evaluate { expression: right, environment };
            match after.control {
                ControlView::Return { value: given } => {
                    lemma_return_sound(frames, locals, given);
                    lemma_passed_on(state, after.control);
                },
                _ => {
                    assert(control_scoped(frames, locals, control, scopes));
                    if after.stack.last() is Truthy {
                        lemma_plain_kont_sound(frames, locals, KontView::Truthy, None);
                        lemma_replaced(state, KontView::Truthy, control);
                    } else {
                        let next = KontView::BinaryRight { operator, left: value };
                        assert(kont_scoped(frames, locals, next, Seq::empty(), None));
                        lemma_replaced(state, next, control);
                    }
                },
            }
        },
        KontView::BinaryRight { operator, left } => {
            lemma_binary_sound(state, operator, left, value);
        },
        KontView::Ternary { true_case, false_case, environment } => {
            assert(control_scoped(frames, locals, after.control, scopes));
            lemma_passed_on(state, after.control);
        },
        KontView::Assign { name, id, environment } => {
            let distance = distance_of(locals, id)->0;
            let frame = ancestor(frames, environment, distance)->0;
            crate::tree_walking::machine::lemma_ancestor_exists(frames, environment, distance);
            lemma_bind_grows(frames, frame, name, value);
            lemma_value_sound_grows(frames, after.frames, locals, value);
            lemma_bind_sound(frames, locals, frame, name, value);
            lemma_return_sound(after.frames, locals, value);
            if top >= 1 {
                assert(state.slot_sound(top - 1));
                assert(after.stack.last() == state.stack[top - 1]);
                lemma_kont_sound_grows(
                    frames,
                    after.frames,
                    locals,
                    state.stack[top - 1],
                    state.pending_at(top - 1),
                );
            }
            lemma_popped(state, after);
        },
        KontView::Callee { arguments, environment } => {
            if let ValueView::Function(callee) = value {
                if arguments.len() == 0 {
                    lemma_invoke_sound(state, callee, Seq::empty());
                } else {
                    let next = KontView::Arguments {
                        callee,
                        arguments,
                        values: Seq::empty(),
                        environment,
                    };
                    let control = ControlView::Evaluate { expression: arguments[0], environment };
                    assert(kont_scoped(frames, locals, next, scopes, None));
                    assert(control_scoped(frames, locals, control, scopes));
                    lemma_replaced(state, next, control);
                }
            }
        },
        KontView::Arguments { callee, arguments, values, environment } => {
            lemma_values_sound_push(frames, locals, values, value);
            if values.len() + 1 < arguments.len() {
                let next = KontView::Arguments {
                    callee,
                    arguments,
                    values: values.push(value),
                    environment,
                };
                let control = ControlView::Evaluate {
                    expression: arguments[values.len() as int + 1],
                    environment,
                };
                assert(kont_scoped(frames, locals, next, scopes, None));
                assert(control_scoped(frames, locals, control, scopes));
                lemma_replaced(state, next, control);
            } else {
                lemma_invoke_sound(state, callee, values.push(value));
            }
        },
        KontView::Declare { name, environment } => {
            lemma_bind_grows(frames, environment, name, value);
            lemma_value_sound_grows(frames, after.frames, locals, value);
            lemma_bind_sound(frames, locals, environment, name, value);
            lemma_plain_control_sound(after.frames, locals, ControlView::Done);
            assert(state.slot_sound(top - 1));
            assert(after.stack.last() == state.stack[top - 1]);
            lemma_kont_sound_grows(frames, after.frames, locals, state.stack[top - 1], Some(name));
            lemma_pending_is_defined(after.frames, locals, state.stack[top - 1], name);
            lemma_popped(state, after);
        },
        KontView::WhileTest { condition, statement, environment } => {
            if value.is_truthy() {
                let next = KontView::WhileBody { condition, statement, environment };
                let control = ControlView::Execute { statement, environment };
                assert(kont_scoped(frames, locals, next, scopes, None));
                assert(control_scoped(frames, locals, control, scopes));
                lemma_replaced(state, next, control);
            } else {
                lemma_plain_control_sound(frames, locals, ControlView::Done);
                lemma_passed_on(state, ControlView::Done);
            }
        },
        KontView::IfTest { true_case, false_case, environment } => {
            match after.control {
                ControlView::Done => {
                    lemma_plain_control_sound(frames, locals, ControlView::Done);
                    lemma_passed_on(state, ControlView::Done);
                },
                _ => {
                    assert(control_scoped(frames, locals, after.control, scopes));
                    lemma_passed_on(state, after.control);
                },
            }
        },
        _ => {},
    }
}

/// The step that goes on with the continuation on top of the stack after a
/// statement gives a sound state.
pub proof fn lemma_advance_sound(state: MachineView)
    requires
        state.sound(),
        state.control == ControlView::Done,
        state.stack.len() > 0,
    ensures
        advance(state.pop(), state.stack.last()).state.sound(),
        !is_scope_failure(advance(state.pop(), state.stack.last()).progress),
{
    reveal(control_sound);
    reveal(kont_sound);
    let frames = state.frames;
    let locals = state.locals;
    let top = state.stack.len() - 1;
    let kont = state.stack.last();
    let after = advance(state.pop(), kont).state;
    crate::tree_walking::machine::lemma_pop_valid(state);
    crate::tree_walking::machine::lemma_advance_valid(state.pop(), kont);
    assert(state.slot_sound(top));
    assert(state.linked(top));
    let scopes = choose|scopes: Seq<Scope>| #[trigger]
        kont_scoped(frames, locals, kont, scopes, None);
    match kont {
        KontView::Sequence { statements, next, environment } => {
            if next < statements.len() {
                let statement = statements[next as int];
                let control = ControlView::Execute { statement, environment };
                let rest = KontView::Sequence { statements, next: next + 1, environment };
                let behind = scopes_behind(scopes, statement);
                match statement {
                    StmtView::Declaration { name, .. } => {
                        lemma_defined_models(frames, environment, scopes, name, Some(name));
                    },
                    StmtView::FunDeclaration { name, .. } => {
                        lemma_defined_models(frames, environment, scopes, name, Some(name));
                    },
                    _ => {},
                }
                assert(kont_scoped(frames, locals, rest, behind, declared_by(control)));
                assert(control_scoped(frames, locals, control, scopes));
                lemma_replaced(state, rest, control);
            } else {
                lemma_plain_control_sound(frames, locals, ControlView::Done);
                lemma_passed_on(state, ControlView::Done);
            }
        },
        KontView::WhileBody { condition, statement, environment } => {
            let next = KontView::WhileTest { condition, statement, environment };
            let control = ControlView::Evaluate { expression: condition, environment };
            assert(kont_scoped(frames, locals, next, scopes, None));
            assert(control_scoped(frames, locals, control, scopes));
            lemma_replaced(state, next, control);
        },
        KontView::Finish => {
            lemma_return_sound(frames, locals, ValueView::Nil);
            lemma_passed_on(state, ControlView::Return { value: ValueView::Nil });
        },
        _ => {},
    }
}

/// The step of `println` gives a sound state.
pub proof fn lemma_print_sound(state: MachineView, values: Seq<ValueView>, next: nat, line: Seq<char>)
    requires
        state.sound(),
        state.control == (ControlView::Print { values, next, line }),
        print(state, values, next, line).state.valid(),
    ensures
        print(state, values, next, line).state.sound(),
        !is_scope_failure(print(state, values, next, line).progress),
{
    reveal(control_sound);
    reveal(kont_sound);
    let frames = state.frames;
    let locals = state.locals;
    let after = print(state, values, next, line).state;
    let found = choose|found: Seq<Scope>| #[trigger]
        control_scoped(frames, locals, state.control, found);
    if next >= values.len() {
        lemma_plain_control_sound(frames, locals, after.control);
        lemma_same_frames(state, after.control);
    } else {
        match values[next as int] {
            ValueView::Number(number) => {
                let kont = after.stack.last();
                assert(kont_scoped(frames, locals, kont, Seq::empty(), None));
                lemma_plain_control_sound(frames, locals, after.control);
                lemma_pushed(state, kont, after.control);
            },
            _ => {
                assert(control_scoped(frames, locals, after.control, Seq::empty()));
                lemma_same_frames(state, after.control);
            },
        }
    }
}

/// A step of a sound state gives a sound state, and does not fail to find a
/// variable: in a run of a well-scoped program, walking up the parents of a
/// frame by the distance of a variable leads to a frame that holds the
/// variable.
pub proof fn step_keeps_sound(state: MachineView, reply: Option<ReplyView>)
    requires
        state.sound(),
    ensures
        step(state, reply).state.sound(),
        !is_scope_failure(step(state, reply).progress),
{
    reveal(control_sound);
    let after = step(state, reply).state;
    if !(state.control is Stopped) {
        crate::tree_walking::machine::step_keeps_valid(state, reply);
        match state.control {
            ControlView::Pending { expected } => {
                if let ControlView::Return { value } = after.control {
                    assert(control_scoped(state.frames, state.locals, after.control, Seq::empty()));
                    lemma_same_frames(state, after.control);
                }
            },
            ControlView::Evaluate { expression, environment } => {
                if reply is None {
                    lemma_evaluate_sound(state, expression, environment);
                }
            },
            ControlView::Execute { statement, environment } => {
                if reply is None {
                    lemma_execute_sound(state, statement, environment);
                }
            },
            ControlView::Return { value } => {
                if reply is None && state.stack.len() > 0 {
                    lemma_apply_sound(state, value);
                }
            },
            ControlView::Done => {
                if reply is None && state.stack.len() > 0 {
                    lemma_advance_sound(state);
                }
            },
            ControlView::Print { values, next, line } => {
                if reply is None {
                    lemma_print_sound(state, values, next, line);
                }
            },
            _ => {},
        }
    }
}

/// The scopes of a program before its first statement: the scope of the
/// native functions, and the scope of the program.
pub open spec fn initial_scopes() -> Seq<Scope> {
    seq![native_scope(), Map::<Seq<char>, bool>::empty()]
}

/// The state of a machine that is about to run a well-scoped program is
/// sound.
pub proof fn loaded_is_sound(locals: Map<usize, usize>, program: Seq<StmtView>)
    requires
        scoped_stmts(locals, initial_scopes(), program, 0),
    ensures
        loaded(locals, program).sound(),
{
    reveal(control_sound);
    reveal(kont_sound);
    let state = loaded(locals, program);
    let frames = state.frames;
    crate::tree_walking::machine::loaded_is_valid(locals, program);
    assert(control_scoped(frames, locals, state.control, Seq::empty()));
    let scopes = initial_scopes();
    assert forall|j: int, name: Seq<char>|
        0 <= j < scopes.len() && #[trigger] defines(scopes[j], name) implies holds(
        frames,
        1,
        (scopes.len() - 1 - j) as nat,
        name,
    ) by {
        assert(j == 0);
        assert(ancestor(frames, 1, 1) == ancestor(frames, 0, 0));
        assert(frames[0].values.contains_key(name));
    }
    assert(kont_scoped(frames, locals, state.stack[0], scopes, None));
    assert(state.slot_sound(0));
    assert forall|i: int, name: Seq<char>|
        0 <= i < frames.len() && #[trigger] frames[i].values.contains_key(name) implies value_sound(
        frames,
        locals,
        frames[i].values[name],
    ) by {
        assert(!(frames[i].values[name] matches ValueView::Function(CallableView::Fun(_))));
    }
    assert(state.linked(0));
}

} // verus!
