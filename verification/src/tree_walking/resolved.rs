//! What the resolver finds is well scoped.
//!
//! The resolver holds one distance for each identity, so what it finds for
//! a use of a variable stays only where no other use has the same identity.
//! A program in which the identities are all different, and which has the
//! shape that the parser gives to programs, is called tidy here.

use crate::tree_walking::ast::{ExprView, LiteralView, StmtView};
use crate::tree_walking::resolver::{
    begin_scope, declare, define, define_all, distance, distance_leads_to_the_definition,
    expr_ids, exprs_ids, initial, resolve, resolve_expr,
    resolve_exprs, resolve_stmt, resolve_stmts, stmt_ids, stmts_ids, ResolverView,
    Scope,
};
use crate::tree_walking::scoping::{
    defined_all, is_block, lemma_defined_all, marked, scoped_expr, scoped_exprs,
    scoped_stmt, scoped_stmts, scopes_behind,
};
use crate::tree_walking::soundness::{initial_scopes, loaded_is_sound};
use vstd::prelude::*;

verus! {

/// The identities of the expression are all different, and each is a
/// machine word.
pub open spec fn tidy_expr(expr: ExprView) -> bool
    decreases expr, 0nat,
{
    match expr {
        ExprView::Ternary { conditional, true_case, false_case } => tidy_expr(*conditional)
            && tidy_expr(*true_case) && tidy_expr(*false_case) && expr_ids(*conditional).disjoint(
            expr_ids(*true_case),
        ) && expr_ids(*conditional).disjoint(expr_ids(*false_case)) && expr_ids(
            *true_case,
        ).disjoint(expr_ids(*false_case)),
        ExprView::Binary { left, right, .. } => tidy_expr(*left) && tidy_expr(*right) && expr_ids(
            *left,
        ).disjoint(expr_ids(*right)),
        ExprView::Unary { expr, .. } => tidy_expr(*expr),
        ExprView::Grouping { expr } => tidy_expr(*expr),
        ExprView::Literal { value } => match value {
            LiteralView::Identifier { id, .. } => id <= usize::MAX,
            _ => true,
        },
        ExprView::Assignment { expression, id, .. } => tidy_expr(*expression) && id <= usize::MAX
            && !expr_ids(*expression).contains(id),
        ExprView::Call { function, arguments } => tidy_expr(*function) && tidy_exprs(arguments, 0)
            && expr_ids(*function).disjoint(exprs_ids(arguments, 0)),
    }
}

/// The identities of the expressions `exprs[from..]` are all different, and
/// each is a machine word.
pub open spec fn tidy_exprs(exprs: Seq<ExprView>, from: nat) -> bool
    decreases exprs, exprs.len() - from,
{
    from >= exprs.len() || (tidy_expr(exprs[from as int]) && tidy_exprs(exprs, from + 1)
        && expr_ids(exprs[from as int]).disjoint(exprs_ids(exprs, from + 1)))
}

/// The identities of the statement are all different, and each is a machine
/// word; the bodies of its loops and the branches of its `if` are blocks;
/// and with `depth` scopes around it, it opens no more scopes than a
/// machine word counts.
pub open spec fn tidy_stmt(depth: nat, stmt: StmtView) -> bool
    decreases stmt, 0nat,
{
    match stmt {
        StmtView::Expression { expression } => tidy_expr(expression),
        StmtView::Declaration { initializer, .. } => tidy_expr(initializer),
        StmtView::FunDeclaration { body, .. } => depth + 1 <= usize::MAX && tidy_stmts(
            depth + 1,
            body,
            0,
        ),
        StmtView::Block { statements } => depth + 1 <= usize::MAX && tidy_stmts(
            depth + 1,
            statements,
            0,
        ),
        StmtView::While { condition, statement } => tidy_expr(condition) && is_block(*statement)
            && tidy_stmt(depth, *statement) && expr_ids(condition).disjoint(stmt_ids(*statement)),
        StmtView::If { condition, true_case, false_case } => tidy_expr(condition) && is_block(
            *true_case,
        ) && tidy_stmt(depth, *true_case) && expr_ids(condition).disjoint(stmt_ids(*true_case))
            && match false_case {
            Some(stmt) => is_block(*stmt) && tidy_stmt(depth, *stmt) && expr_ids(
                condition,
            ).disjoint(stmt_ids(*stmt)) && stmt_ids(*true_case).disjoint(stmt_ids(*stmt)),
            None => true,
        },
    }
}

/// The statements `stmts[from..]` are tidy, with `depth` scopes around them.
pub open spec fn tidy_stmts(depth: nat, stmts: Seq<StmtView>, from: nat) -> bool
    decreases stmts, stmts.len() - from,
{
    from >= stmts.len() || (tidy_stmt(depth, stmts[from as int]) && tidy_stmts(
        depth,
        stmts,
        from + 1,
    ) && stmt_ids(stmts[from as int]).disjoint(stmts_ids(stmts, from + 1)))
}

/// The scopes behind the statements `stmts[from..]`.
pub open spec fn scopes_after(scopes: Seq<Scope>, stmts: Seq<StmtView>, from: nat) -> Seq<Scope>
    decreases stmts.len() - from,
{
    if from >= stmts.len() {
        scopes
    } else {
        scopes_after(scopes_behind(scopes, stmts[from as int]), stmts, from + 1)
    }
}

/// The distances `after` are the distances `before` but for the identities
/// of `ids`.
pub open spec fn same_outside(before: Map<usize, usize>, after: Map<usize, usize>, ids: Set<nat>) -> bool {
    forall|key: usize|
        !ids.contains(key as nat) ==> (#[trigger] after.contains_key(key) == before.contains_key(
            key,
        ) && (before.contains_key(key) ==> after[key] == before[key]))
}

/// The distances `after` hold what the distances `before` hold for the
/// identities of `ids`.
pub open spec fn same_inside(before: Map<usize, usize>, after: Map<usize, usize>, ids: Set<nat>) -> bool {
    forall|key: usize|
        ids.contains(key as nat) && #[trigger] before.contains_key(key) ==> after.contains_key(
            key,
        ) && after[key] == before[key]
}

/// Distances that are the same outside some identities are the same inside
/// identities that are none of them.
pub proof fn lemma_outside_is_inside(
    before: Map<usize, usize>,
    after: Map<usize, usize>,
    changed: Set<nat>,
    kept: Set<nat>,
)
    requires
        same_outside(before, after, changed),
        kept.disjoint(changed),
    ensures
        same_inside(before, after, kept),
{
    assert forall|key: usize|
        kept.contains(key as nat) && #[trigger] before.contains_key(
            key,
        ) implies after.contains_key(key) && after[key] == before[key] by {
        assert(!changed.contains(key as nat));
        assert(after.contains_key(key) == before.contains_key(key));
    }
}

/// Distances that are the same outside some identities twice in a row are
/// the same outside all of them.
pub proof fn lemma_outside_twice(
    first: Map<usize, usize>,
    second: Map<usize, usize>,
    third: Map<usize, usize>,
    one: Set<nat>,
    other: Set<nat>,
)
    requires
        same_outside(first, second, one),
        same_outside(second, third, other),
    ensures
        same_outside(first, third, one + other),
{
    assert forall|key: usize| !(one + other).contains(key as nat) implies (#[trigger] third.contains_key(
        key,
    ) == first.contains_key(key) && (first.contains_key(key) ==> third[key] == first[key])) by {
        assert(second.contains_key(key) == first.contains_key(key));
        assert(third.contains_key(key) == second.contains_key(key));
    }
}

/// An expression that is well scoped stays so where the distances of its
/// identities stay.
pub proof fn lemma_scoped_expr_stays(
    before: Map<usize, usize>,
    after: Map<usize, usize>,
    scopes: Seq<Scope>,
    expr: ExprView,
)
    requires
        scoped_expr(before, scopes, expr),
        same_inside(before, after, expr_ids(expr)),
    ensures
        scoped_expr(after, scopes, expr),
    decreases expr, 0nat,
{
    match expr {
        ExprView::Ternary { conditional, true_case, false_case } => {
            lemma_scoped_expr_stays(before, after, scopes, *conditional);
            lemma_scoped_expr_stays(before, after, scopes, *true_case);
            lemma_scoped_expr_stays(before, after, scopes, *false_case);
        },
        ExprView::Binary { left, right, .. } => {
            lemma_scoped_expr_stays(before, after, scopes, *left);
            lemma_scoped_expr_stays(before, after, scopes, *right);
        },
        ExprView::Unary { expr, .. } => {
            lemma_scoped_expr_stays(before, after, scopes, *expr);
        },
        ExprView::Grouping { expr } => {
            lemma_scoped_expr_stays(before, after, scopes, *expr);
        },
        ExprView::Literal { value } => {
            if let LiteralView::Identifier { name, id } = value {
                assert(expr_ids(expr).contains(id));
                assert(before.contains_key(id as usize));
            }
        },
        ExprView::Assignment { name, expression, id } => {
            lemma_scoped_expr_stays(before, after, scopes, *expression);
            assert(expr_ids(expr).contains(id));
            assert(before.contains_key(id as usize));
        },
        ExprView::Call { function, arguments } => {
            lemma_scoped_expr_stays(before, after, scopes, *function);
            lemma_scoped_exprs_stay(before, after, scopes, arguments, 0);
        },
    }
}

/// Expressions that are well scoped stay so where the distances of their
/// identities stay.
pub proof fn lemma_scoped_exprs_stay(
    before: Map<usize, usize>,
    after: Map<usize, usize>,
    scopes: Seq<Scope>,
    exprs: Seq<ExprView>,
    from: nat,
)
    requires
        scoped_exprs(before, scopes, exprs, from),
        same_inside(before, after, exprs_ids(exprs, from)),
    ensures
        scoped_exprs(after, scopes, exprs, from),
    decreases exprs, exprs.len() - from,
{
    if from < exprs.len() {
        lemma_scoped_expr_stays(before, after, scopes, exprs[from as int]);
        lemma_scoped_exprs_stay(before, after, scopes, exprs, from + 1);
    }
}

/// A statement that is well scoped stays so where the distances of its
/// identities stay.
pub proof fn lemma_scoped_stmt_stays(
    before: Map<usize, usize>,
    after: Map<usize, usize>,
    scopes: Seq<Scope>,
    stmt: StmtView,
)
    requires
        scoped_stmt(before, scopes, stmt),
        same_inside(before, after, stmt_ids(stmt)),
    ensures
        scoped_stmt(after, scopes, stmt),
    decreases stmt, 0nat,
{
    match stmt {
        StmtView::Expression { expression } => {
            lemma_scoped_expr_stays(before, after, scopes, expression);
        },
        StmtView::Declaration { name, initializer } => {
            lemma_scoped_expr_stays(before, after, marked(scopes, name, false), initializer);
        },
        StmtView::FunDeclaration { name, parameters, body } => {
            lemma_scoped_stmts_stay(
                before,
                after,
                defined_all(
                    marked(marked(scopes, name, false), name, true).push(Map::empty()),
                    parameters,
                    0,
                ),
                body,
                0,
            );
        },
        StmtView::Block { statements } => {
            lemma_scoped_stmts_stay(before, after, scopes.push(Map::empty()), statements, 0);
        },
        StmtView::While { condition, statement } => {
            lemma_scoped_expr_stays(before, after, scopes, condition);
            lemma_scoped_stmt_stays(before, after, scopes, *statement);
        },
        StmtView::If { condition, true_case, false_case } => {
            lemma_scoped_expr_stays(before, after, scopes, condition);
            lemma_scoped_stmt_stays(before, after, scopes, *true_case);
            if let Some(stmt) = false_case {
                lemma_scoped_stmt_stays(before, after, scopes, *stmt);
            }
        },
    }
}

/// Statements that are well scoped stay so where the distances of their
/// identities stay.
pub proof fn lemma_scoped_stmts_stay(
    before: Map<usize, usize>,
    after: Map<usize, usize>,
    scopes: Seq<Scope>,
    stmts: Seq<StmtView>,
    from: nat,
)
    requires
        scoped_stmts(before, scopes, stmts, from),
        same_inside(before, after, stmts_ids(stmts, from)),
    ensures
        scoped_stmts(after, scopes, stmts, from),
    decreases stmts, stmts.len() - from,
{
    if from < stmts.len() {
        lemma_scoped_stmt_stays(before, after, scopes, stmts[from as int]);
        lemma_scoped_stmts_stay(
            before,
            after,
            scopes_behind(scopes, stmts[from as int]),
            stmts,
            from + 1,
        );
    }
}

/// The resolver went from `state` to `post`, found what is well scoped in
/// between, and left the other distances alone.
pub open spec fn went(state: ResolverView, post: ResolverView, ids: Set<nat>) -> bool {
    same_outside(state.locals, post.locals, ids)
}

/// A tidy expression that resolves is well scoped under the scopes in which
/// it was resolved, with the distances that the resolver holds afterwards.
pub proof fn lemma_resolved_expr(state: ResolverView, expr: ExprView)
    requires
        resolve_expr(state, expr) is Ok,
        tidy_expr(expr),
        state.scopes.len() <= usize::MAX,
    ensures
        scoped_expr(resolve_expr(state, expr)->Ok_0.locals, state.scopes, expr),
        resolve_expr(state, expr)->Ok_0.scopes == state.scopes,
        went(state, resolve_expr(state, expr)->Ok_0, expr_ids(expr)),
    decreases expr, 0nat,
{
    let post = resolve_expr(state, expr)->Ok_0;
    let scopes = state.scopes;
    match expr {
        ExprView::Ternary { conditional, true_case, false_case } => {
            lemma_resolved_expr(state, *conditional);
            let first = resolve_expr(state, *conditional)->Ok_0;
            lemma_resolved_expr(first, *true_case);
            let second = resolve_expr(first, *true_case)->Ok_0;
            lemma_resolved_expr(second, *false_case);
            lemma_outside_twice(
                first.locals,
                second.locals,
                post.locals,
                expr_ids(*true_case),
                expr_ids(*false_case),
            );
            lemma_outside_is_inside(
                first.locals,
                post.locals,
                expr_ids(*true_case) + expr_ids(*false_case),
                expr_ids(*conditional),
            );
            lemma_scoped_expr_stays(first.locals, post.locals, scopes, *conditional);
            lemma_outside_is_inside(
                second.locals,
                post.locals,
                expr_ids(*false_case),
                expr_ids(*true_case),
            );
            lemma_scoped_expr_stays(second.locals, post.locals, scopes, *true_case);
            lemma_outside_twice(
                state.locals,
                first.locals,
                post.locals,
                expr_ids(*conditional),
                expr_ids(*true_case) + expr_ids(*false_case),
            );
            assert(expr_ids(expr) =~= expr_ids(*conditional) + (expr_ids(*true_case) + expr_ids(
                *false_case,
            )));
        },
        ExprView::Binary { left, right, .. } => {
            lemma_resolved_expr(state, *left);
            let first = resolve_expr(state, *left)->Ok_0;
            lemma_resolved_expr(first, *right);
            lemma_outside_is_inside(first.locals, post.locals, expr_ids(*right), expr_ids(*left));
            lemma_scoped_expr_stays(first.locals, post.locals, scopes, *left);
            lemma_outside_twice(
                state.locals,
                first.locals,
                post.locals,
                expr_ids(*left),
                expr_ids(*right),
            );
        },
        ExprView::Unary { expr, .. } => {
            lemma_resolved_expr(state, *expr);
        },
        ExprView::Grouping { expr } => {
            lemma_resolved_expr(state, *expr);
        },
        ExprView::Literal { value } => {
            if let LiteralView::Identifier { name, id } = value {
                distance_leads_to_the_definition(scopes, name);
            }
        },
        ExprView::Assignment { name, expression, id } => {
            lemma_resolved_expr(state, *expression);
            let first = resolve_expr(state, *expression)->Ok_0;
            distance_leads_to_the_definition(scopes, name);
            assert(same_inside(first.locals, post.locals, expr_ids(*expression))) by {
                assert forall|key: usize|
                    expr_ids(*expression).contains(key as nat) && #[trigger] first.locals.contains_key(
                        key,
                    ) implies post.locals.contains_key(key) && post.locals[key]
                    == first.locals[key] by {
                    assert(key != id as usize);
                }
            }
            lemma_scoped_expr_stays(first.locals, post.locals, scopes, *expression);
            assert(went(state, post, expr_ids(expr))) by {
                assert forall|key: usize| !expr_ids(expr).contains(key as nat) implies (#[trigger] post.locals.contains_key(
                    key,
                ) == state.locals.contains_key(key) && (state.locals.contains_key(key)
                    ==> post.locals[key] == state.locals[key])) by {
                    assert(!expr_ids(*expression).contains(key as nat));
                    assert(first.locals.contains_key(key) == state.locals.contains_key(key));
                    assert(key as nat != id);
                }
            }
        },
        ExprView::Call { function, arguments } => {
            lemma_resolved_expr(state, *function);
            let first = resolve_expr(state, *function)->Ok_0;
            lemma_resolved_exprs(first, arguments, 0);
            lemma_outside_is_inside(
                first.locals,
                post.locals,
                exprs_ids(arguments, 0),
                expr_ids(*function),
            );
            lemma_scoped_expr_stays(first.locals, post.locals, scopes, *function);
            lemma_outside_twice(
                state.locals,
                first.locals,
                post.locals,
                expr_ids(*function),
                exprs_ids(arguments, 0),
            );
        },
    }
}

/// Tidy expressions that resolve are well scoped under the scopes in which
/// they were resolved, with the distances that the resolver holds
/// afterwards.
pub proof fn lemma_resolved_exprs(state: ResolverView, exprs: Seq<ExprView>, from: nat)
    requires
        resolve_exprs(state, exprs, from) is Ok,
        tidy_exprs(exprs, from),
        state.scopes.len() <= usize::MAX,
    ensures
        scoped_exprs(resolve_exprs(state, exprs, from)->Ok_0.locals, state.scopes, exprs, from),
        resolve_exprs(state, exprs, from)->Ok_0.scopes == state.scopes,
        went(state, resolve_exprs(state, exprs, from)->Ok_0, exprs_ids(exprs, from)),
    decreases exprs, exprs.len() - from,
{
    if from < exprs.len() {
        let post = resolve_exprs(state, exprs, from)->Ok_0;
        lemma_resolved_expr(state, exprs[from as int]);
        let next = resolve_expr(state, exprs[from as int])->Ok_0;
        lemma_resolved_exprs(next, exprs, from + 1);
        lemma_outside_is_inside(
            next.locals,
            post.locals,
            exprs_ids(exprs, from + 1),
            expr_ids(exprs[from as int]),
        );
        lemma_scoped_expr_stays(next.locals, post.locals, state.scopes, exprs[from as int]);
        lemma_outside_twice(
            state.locals,
            next.locals,
            post.locals,
            expr_ids(exprs[from as int]),
            exprs_ids(exprs, from + 1),
        );
    }
}

/// Defining names one by one is defining them all.
pub proof fn lemma_define_all_scopes(state: ResolverView, names: Seq<Seq<char>>, from: nat)
    ensures
        define_all(state, names, from).scopes == defined_all(state.scopes, names, from),
        define_all(state, names, from).locals == state.locals,
    decreases names.len() - from,
{
    if from < names.len() {
        lemma_define_all_scopes(
            define(declare(state, names[from as int]), names[from as int]),
            names,
            from + 1,
        );
    }
}

/// Statements change the innermost scope only.
pub proof fn lemma_scopes_after(scopes: Seq<Scope>, stmts: Seq<StmtView>, from: nat)
    requires
        scopes.len() > 0,
    ensures
        scopes_after(scopes, stmts, from).len() == scopes.len(),
        scopes_after(scopes, stmts, from).drop_last() == scopes.drop_last(),
    decreases stmts.len() - from,
{
    if from < stmts.len() {
        let next = scopes_behind(scopes, stmts[from as int]);
        assert(next.len() == scopes.len());
        assert(next.drop_last() =~= scopes.drop_last());
        lemma_scopes_after(next, stmts, from + 1);
    }
}

/// A tidy statement that resolves is well scoped under the scopes in which
/// it was resolved, with the distances that the resolver holds afterwards.
pub proof fn lemma_resolved_stmt(state: ResolverView, stmt: StmtView)
    requires
        resolve_stmt(state, stmt) is Ok,
        tidy_stmt(state.scopes.len(), stmt),
        0 < state.scopes.len() <= usize::MAX,
    ensures
        scoped_stmt(resolve_stmt(state, stmt)->Ok_0.locals, state.scopes, stmt),
        resolve_stmt(state, stmt)->Ok_0.scopes == scopes_behind(state.scopes, stmt),
        went(state, resolve_stmt(state, stmt)->Ok_0, stmt_ids(stmt)),
    decreases stmt, 0nat,
{
    let post = resolve_stmt(state, stmt)->Ok_0;
    let scopes = state.scopes;
    match stmt {
        StmtView::Expression { expression } => {
            lemma_resolved_expr(state, expression);
        },
        StmtView::Declaration { name, initializer } => {
            lemma_resolved_expr(declare(state, name), initializer);
        },
        StmtView::FunDeclaration { name, parameters, body } => {
            let outer = define(declare(state, name), name);
            let opened = begin_scope(outer);
            let inner = define_all(opened, parameters, 0);
            lemma_define_all_scopes(opened, parameters, 0);
            lemma_defined_all(opened.scopes, parameters, 0);
            lemma_resolved_stmts(inner, body, 0);
            let last = resolve_stmts(inner, body, 0)->Ok_0;
            lemma_scopes_after(inner.scopes, body, 0);
            assert(inner.scopes.drop_last() =~= outer.scopes);
            assert(post.scopes == outer.scopes);
        },
        StmtView::Block { statements } => {
            let opened = begin_scope(state);
            lemma_resolved_stmts(opened, statements, 0);
            lemma_scopes_after(opened.scopes, statements, 0);
            assert(opened.scopes.drop_last() =~= scopes);
        },
        StmtView::While { condition, statement } => {
            lemma_resolved_expr(state, condition);
            let first = resolve_expr(state, condition)->Ok_0;
            lemma_resolved_stmt(first, *statement);
            lemma_outside_is_inside(
                first.locals,
                post.locals,
                stmt_ids(*statement),
                expr_ids(condition),
            );
            lemma_scoped_expr_stays(first.locals, post.locals, scopes, condition);
            lemma_outside_twice(
                state.locals,
                first.locals,
                post.locals,
                expr_ids(condition),
                stmt_ids(*statement),
            );
        },
        StmtView::If { condition, true_case, false_case } => {
            lemma_resolved_expr(state, condition);
            let first = resolve_expr(state, condition)->Ok_0;
            lemma_resolved_stmt(first, *true_case);
            let second = resolve_stmt(first, *true_case)->Ok_0;
            match false_case {
                Some(other) => {
                    lemma_resolved_stmt(second, *other);
                    lemma_outside_twice(
                        first.locals,
                        second.locals,
                        post.locals,
                        stmt_ids(*true_case),
                        stmt_ids(*other),
                    );
                    lemma_outside_is_inside(
                        first.locals,
                        post.locals,
                        stmt_ids(*true_case) + stmt_ids(*other),
                        expr_ids(condition),
                    );
                    lemma_scoped_expr_stays(first.locals, post.locals, scopes, condition);
                    lemma_outside_is_inside(
                        second.locals,
                        post.locals,
                        stmt_ids(*other),
                        stmt_ids(*true_case),
                    );
                    lemma_scoped_stmt_stays(second.locals, post.locals, scopes, *true_case);
                    lemma_outside_twice(
                        state.locals,
                        first.locals,
                        post.locals,
                        expr_ids(condition),
                        stmt_ids(*true_case) + stmt_ids(*other),
                    );
                    assert(stmt_ids(stmt) =~= expr_ids(condition) + (stmt_ids(*true_case)
                        + stmt_ids(*other)));
                },
                None => {
                    lemma_outside_is_inside(
                        first.locals,
                        post.locals,
                        stmt_ids(*true_case),
                        expr_ids(condition),
                    );
                    lemma_scoped_expr_stays(first.locals, post.locals, scopes, condition);
                    lemma_outside_twice(
                        state.locals,
                        first.locals,
                        post.locals,
                        expr_ids(condition),
                        stmt_ids(*true_case),
                    );
                    assert(stmt_ids(stmt) =~= expr_ids(condition) + stmt_ids(*true_case));
                },
            }
        },
    }
}

/// Tidy statements that resolve are well scoped under the scopes in which
/// they were resolved, with the distances that the resolver holds
/// afterwards.
pub proof fn lemma_resolved_stmts(state: ResolverView, stmts: Seq<StmtView>, from: nat)
    requires
        resolve_stmts(state, stmts, from) is Ok,
        tidy_stmts(state.scopes.len(), stmts, from),
        0 < state.scopes.len() <= usize::MAX,
    ensures
        scoped_stmts(resolve_stmts(state, stmts, from)->Ok_0.locals, state.scopes, stmts, from),
        resolve_stmts(state, stmts, from)->Ok_0.scopes == scopes_after(state.scopes, stmts, from),
        went(state, resolve_stmts(state, stmts, from)->Ok_0, stmts_ids(stmts, from)),
    decreases stmts, stmts.len() - from,
{
    if from < stmts.len() {
        let post = resolve_stmts(state, stmts, from)->Ok_0;
        lemma_resolved_stmt(state, stmts[from as int]);
        let next = resolve_stmt(state, stmts[from as int])->Ok_0;
        lemma_resolved_stmts(next, stmts, from + 1);
        lemma_outside_is_inside(
            next.locals,
            post.locals,
            stmts_ids(stmts, from + 1),
            stmt_ids(stmts[from as int]),
        );
        lemma_scoped_stmt_stays(next.locals, post.locals, state.scopes, stmts[from as int]);
        lemma_outside_twice(
            state.locals,
            next.locals,
            post.locals,
            stmt_ids(stmts[from as int]),
            stmts_ids(stmts, from + 1),
        );
    }
}

/// A tidy program that resolves is well scoped with the distances that the
/// resolver found.
pub proof fn resolved_program_is_well_scoped(program: Seq<StmtView>)
    requires
        resolve(program) is Ok,
        tidy_stmts(2, program, 0),
    ensures
        scoped_stmts(resolve(program)->Ok_0, initial_scopes(), program, 0),
{
    assert(initial().scopes =~= initial_scopes());
    lemma_resolved_stmts(initial(), program, 0);
}

/// A machine that is about to run a tidy program with the distances that
/// the resolver found is in a sound state: in every state that it gets to,
/// the frames follow the scopes of the program, and no step fails to find a
/// variable.
pub proof fn resolved_program_runs_sound(program: Seq<StmtView>)
    requires
        resolve(program) is Ok,
        tidy_stmts(2, program, 0),
    ensures
        crate::tree_walking::machine::loaded(resolve(program)->Ok_0, program).sound(),
{
    resolved_program_is_well_scoped(program);
    loaded_is_sound(resolve(program)->Ok_0, program);
}

} // verus!
