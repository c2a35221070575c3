//! What it means for a program to be well scoped, and for the frames of a
//! run to follow the scopes of a program.
//!
//! A piece of a program is well scoped under a stack of scopes where the
//! distance held for each of its uses of a variable and each of its
//! assignments leads to a scope that defines the variable.  The frames of a
//! run follow a stack of scopes from a frame on where, scope by scope and
//! parent by parent, the frame holds every variable that the scope defines.

use crate::tree_walking::ast::{ExprView, LiteralView, StmtView};
use crate::tree_walking::environment::{ancestor, bind, extend, FrameView};
use crate::tree_walking::machine::{bind_all, distance_of};
use crate::tree_walking::resolver::{defines, Scope};
use vstd::prelude::*;

verus! {

/// The scopes, with `name` entered in the innermost as defined or not.
pub open spec fn marked(scopes: Seq<Scope>, name: Seq<char>, defined: bool) -> Seq<Scope> {
    if scopes.len() == 0 {
        scopes
    } else {
        scopes.drop_last().push(scopes.last().insert(name, defined))
    }
}

/// The scopes, with `names[from..]` defined in the innermost.
pub open spec fn defined_all(scopes: Seq<Scope>, names: Seq<Seq<char>>, from: nat) -> Seq<Scope>
    decreases names.len() - from,
{
    if from >= names.len() {
        scopes
    } else {
        defined_all(marked(marked(scopes, names[from as int], false), names[from as int], true), names, from + 1)
    }
}

/// The distance held for the use or the assignment `id` of `name` leads to a
/// scope that defines `name`.
pub open spec fn resolved_at(
    locals: Map<usize, usize>,
    scopes: Seq<Scope>,
    name: Seq<char>,
    id: nat,
) -> bool {
    distance_of(locals, id) matches Some(d) && d < scopes.len() && defines(
        scopes[scopes.len() - 1 - d],
        name,
    )
}

/// The expression is well scoped under `scopes`.
pub open spec fn scoped_expr(locals: Map<usize, usize>, scopes: Seq<Scope>, expr: ExprView) -> bool
    decreases expr, 0nat,
{
    match expr {
        ExprView::Ternary { conditional, true_case, false_case } => scoped_expr(
            locals,
            scopes,
            *conditional,
        ) && scoped_expr(locals, scopes, *true_case) && scoped_expr(locals, scopes, *false_case),
        ExprView::Binary { left, right, .. } => scoped_expr(locals, scopes, *left) && scoped_expr(
            locals,
            scopes,
            *right,
        ),
        ExprView::Unary { expr, .. } => scoped_expr(locals, scopes, *expr),
        ExprView::Grouping { expr } => scoped_expr(locals, scopes, *expr),
        ExprView::Literal { value } => match value {
            LiteralView::Identifier { name, id } => resolved_at(locals, scopes, name, id),
            _ => true,
        },
        ExprView::Assignment { name, expression, id } => scoped_expr(locals, scopes, *expression)
            && resolved_at(locals, scopes, name, id),
        ExprView::Call { function, arguments } => scoped_expr(locals, scopes, *function)
            && scoped_exprs(locals, scopes, arguments, 0),
    }
}

/// The expressions `exprs[from..]` are well scoped under `scopes`.
pub open spec fn scoped_exprs(
    locals: Map<usize, usize>,
    scopes: Seq<Scope>,
    exprs: Seq<ExprView>,
    from: nat,
) -> bool
    decreases exprs, exprs.len() - from,
{
    from >= exprs.len() || (scoped_expr(locals, scopes, exprs[from as int]) && scoped_exprs(
        locals,
        scopes,
        exprs,
        from + 1,
    ))
}

/// Whether the statement is a block.
pub open spec fn is_block(stmt: StmtView) -> bool {
    stmt is Block
}

/// The scopes behind the statement: a declaration defines its name in the
/// innermost scope, and no other statement changes the scopes.
pub open spec fn scopes_behind(scopes: Seq<Scope>, stmt: StmtView) -> Seq<Scope> {
    match stmt {
        StmtView::Declaration { name, .. } => marked(marked(scopes, name, false), name, true),
        StmtView::FunDeclaration { name, .. } => marked(marked(scopes, name, false), name, true),
        _ => scopes,
    }
}

/// The statement is well scoped under `scopes`.  The bodies of loops and
/// the branches of `if` must be blocks.
pub open spec fn scoped_stmt(locals: Map<usize, usize>, scopes: Seq<Scope>, stmt: StmtView) -> bool
    decreases stmt, 0nat,
{
    match stmt {
        StmtView::Expression { expression } => scoped_expr(locals, scopes, expression),
        StmtView::Declaration { name, initializer } => scoped_expr(
            locals,
            marked(scopes, name, false),
            initializer,
        ),
        StmtView::FunDeclaration { name, parameters, body } => scoped_stmts(
            locals,
            defined_all(
                marked(marked(scopes, name, false), name, true).push(Map::empty()),
                parameters,
                0,
            ),
            body,
            0,
        ),
        StmtView::Block { statements } => scoped_stmts(
            locals,
            scopes.push(Map::empty()),
            statements,
            0,
        ),
        StmtView::While { condition, statement } => scoped_expr(locals, scopes, condition)
            && is_block(*statement) && scoped_stmt(locals, scopes, *statement),
        StmtView::If { condition, true_case, false_case } => scoped_expr(
            locals,
            scopes,
            condition,
        ) && is_block(*true_case) && scoped_stmt(locals, scopes, *true_case) && match false_case {
            Some(stmt) => is_block(*stmt) && scoped_stmt(locals, scopes, *stmt),
            None => true,
        },
    }
}

/// The statements `stmts[from..]` are well scoped, the first of them under
/// `scopes` and each other under the scopes behind the one before.
pub open spec fn scoped_stmts(
    locals: Map<usize, usize>,
    scopes: Seq<Scope>,
    stmts: Seq<StmtView>,
    from: nat,
) -> bool
    decreases stmts, stmts.len() - from,
{
    from >= stmts.len() || (scoped_stmt(locals, scopes, stmts[from as int]) && scoped_stmts(
        locals,
        scopes_behind(scopes, stmts[from as int]),
        stmts,
        from + 1,
    ))
}

/// The frame that stands `distance` parents above `frame` holds `name`.
pub open spec fn holds(frames: Seq<FrameView>, frame: nat, distance: nat, name: Seq<char>) -> bool {
    ancestor(frames, frame, distance) matches Some(found) && found < frames.len()
        && frames[found as int].values.contains_key(name)
}

/// The frames follow `scopes` from `frame` on: the frame that stands as many
/// parents above `frame` as a scope stands outside the innermost holds
/// every variable that the scope defines.  Where `skip` is a name, that
/// name may be missing in `frame` itself.
pub open spec fn models(
    frames: Seq<FrameView>,
    frame: nat,
    scopes: Seq<Scope>,
    skip: Option<Seq<char>>,
) -> bool {
    &&& frame < frames.len()
    &&& forall|j: int, name: Seq<char>|
        0 <= j < scopes.len() && #[trigger] defines(scopes[j], name) && !(j == scopes.len() - 1
            && skip == Some(name)) ==> holds(frames, frame, (scopes.len() - 1 - j) as nat, name)
}

/// The frames `after` are the frames `before`, with more frames at the end
/// and more variables in the frames.
pub open spec fn grows(before: Seq<FrameView>, after: Seq<FrameView>) -> bool {
    &&& before.len() <= after.len()
    &&& forall|i: int|
        0 <= i < before.len() ==> (#[trigger] after[i]).parent == before[i].parent
    &&& forall|i: int, name: Seq<char>|
        0 <= i < before.len() && #[trigger] before[i].values.contains_key(name)
            ==> after[i].values.contains_key(name)
}

/// Frames that grow keep their ancestors.
pub proof fn lemma_ancestor_grows(
    before: Seq<FrameView>,
    after: Seq<FrameView>,
    frame: nat,
    distance: nat,
)
    requires
        grows(before, after),
        ancestor(before, frame, distance) is Some,
    ensures
        ancestor(after, frame, distance) == ancestor(before, frame, distance),
    decreases distance,
{
    if distance > 0 {
        let parent = before[frame as int].parent->0;
        assert(after[frame as int].parent == before[frame as int].parent);
        lemma_ancestor_grows(before, after, parent, (distance - 1) as nat);
    }
}

/// Frames that grow keep what they hold.
pub proof fn lemma_holds_grows(
    before: Seq<FrameView>,
    after: Seq<FrameView>,
    frame: nat,
    distance: nat,
    name: Seq<char>,
)
    requires
        grows(before, after),
        holds(before, frame, distance, name),
    ensures
        holds(after, frame, distance, name),
{
    lemma_ancestor_grows(before, after, frame, distance);
    let found = ancestor(before, frame, distance)->0;
    assert(before[found as int].values.contains_key(name));
}

/// Frames that grow go on following the scopes that they follow.
pub proof fn lemma_models_grows(
    before: Seq<FrameView>,
    after: Seq<FrameView>,
    frame: nat,
    scopes: Seq<Scope>,
    skip: Option<Seq<char>>,
)
    requires
        grows(before, after),
        models(before, frame, scopes, skip),
    ensures
        models(after, frame, scopes, skip),
{
    assert forall|j: int, name: Seq<char>|
        0 <= j < scopes.len() && #[trigger] defines(scopes[j], name) && !(j == scopes.len() - 1
            && skip == Some(name)) implies holds(
        after,
        frame,
        (scopes.len() - 1 - j) as nat,
        name,
    ) by {
        lemma_holds_grows(before, after, frame, (scopes.len() - 1 - j) as nat, name);
    }
}

/// Frames grow when a variable is bound.
pub proof fn lemma_bind_grows(
    frames: Seq<FrameView>,
    frame: nat,
    name: Seq<char>,
    value: crate::tree_walking::value::ValueView,
)
    ensures
        grows(frames, bind(frames, frame, name, value)),
        frame < frames.len() ==> bind(frames, frame, name, value)[frame as int].values.contains_key(
            name,
        ),
{
}

/// Frames grow when a frame is added.
pub proof fn lemma_extend_grows(frames: Seq<FrameView>, parent: Option<nat>)
    ensures
        grows(frames, extend(frames, parent)),
{
}

/// Frames that grow twice grow.
pub proof fn lemma_grows_twice(first: Seq<FrameView>, second: Seq<FrameView>, third: Seq<FrameView>)
    requires
        grows(first, second),
        grows(second, third),
    ensures
        grows(first, third),
{
    assert forall|i: int| 0 <= i < first.len() implies (#[trigger] third[i]).parent
        == first[i].parent by {
        assert(second[i].parent == first[i].parent);
    }
    assert forall|i: int, name: Seq<char>|
        0 <= i < first.len() && #[trigger] first[i].values.contains_key(
            name,
        ) implies third[i].values.contains_key(name) by {
        assert(second[i].values.contains_key(name));
    }
}

/// Frames grow when variables are bound, and the frame holds the variables
/// afterwards.
pub proof fn lemma_bind_all_grows(
    frames: Seq<FrameView>,
    frame: nat,
    names: Seq<Seq<char>>,
    values: Seq<crate::tree_walking::value::ValueView>,
    from: nat,
)
    requires
        frame < frames.len(),
        names.len() == values.len(),
    ensures
        grows(frames, bind_all(frames, frame, names, values, from)),
        forall|i: int|
            from <= i < names.len() ==> bind_all(
                frames,
                frame,
                names,
                values,
                from,
            )[frame as int].values.contains_key(#[trigger] names[i]),
    decreases names.len() - from,
{
    if from < names.len() {
        let next = bind(frames, frame, names[from as int], values[from as int]);
        lemma_bind_grows(frames, frame, names[from as int], values[from as int]);
        lemma_bind_all_grows(next, frame, names, values, from + 1);
        let last = bind_all(next, frame, names, values, from + 1);
        lemma_grows_twice(frames, next, last);
        assert(next[frame as int].values.contains_key(names[from as int]));
    }
}

/// The names that the innermost scope defines behind `defined_all` are the
/// names that it defined before and the names defined since; the other
/// scopes are as before.
pub proof fn lemma_defined_all(scopes: Seq<Scope>, names: Seq<Seq<char>>, from: nat)
    requires
        scopes.len() > 0,
    ensures
        defined_all(scopes, names, from).len() == scopes.len(),
        forall|j: int|
            0 <= j < scopes.len() - 1 ==> (#[trigger] defined_all(scopes, names, from)[j])
                == scopes[j],
        forall|name: Seq<char>|
            defines(defined_all(scopes, names, from).last(), name) ==> defines(scopes.last(), name)
                || exists|i: int| from <= i < names.len() && #[trigger] names[i] == name,
    decreases names.len() - from,
{
    if from < names.len() {
        let next = marked(marked(scopes, names[from as int], false), names[from as int], true);
        lemma_defined_all(next, names, from + 1);
        assert forall|j: int| 0 <= j < scopes.len() - 1 implies (#[trigger] defined_all(
            scopes,
            names,
            from,
        )[j]) == scopes[j] by {
            assert(defined_all(next, names, from + 1)[j] == next[j]);
        }
        assert forall|name: Seq<char>|
            defines(defined_all(scopes, names, from).last(), name) implies defines(
            scopes.last(),
            name,
        ) || exists|i: int| from <= i < names.len() && #[trigger] names[i] == name by {
            if defines(next.last(), name) {
                if name == names[from as int] {
                    assert(names[from as int] == name);
                }
            } else {
                let i = choose|i: int| from + 1 <= i < names.len() && #[trigger] names[i] == name;
                assert(names[i] == name);
            }
        }
    }
}

} // verus!
