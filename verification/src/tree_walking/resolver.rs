//! The resolver: for every use of a variable and every assignment, the number
//! of scopes between the use and the scope that defines the variable.

use crate::tree_walking::ast::{
    expr_views, lemma_expr_views, lemma_stmt_views, name_views, stmt_views, Expr, ExprView,
    Literal, LiteralView, Stmt, StmtView,
};
use crate::tree_walking::errors::{ResolveError, ResolveErrorView};
use std::collections::HashMap;
use vstd::hash_map::StringHashMap;
use vstd::prelude::*;

verus! {

broadcast use vstd::std_specs::hash::group_hash_axioms;

/// The distances that the resolver found, by the identity of the use or the
/// assignment.
pub type Locals = HashMap<usize, usize>;

/// A scope: the names declared in it, each with whether it is defined yet.
pub type Scope = Map<Seq<char>, bool>;

/// The state of a resolver.
pub struct ResolverView {
    /// The scopes that are open, the innermost last.
    pub scopes: Seq<Scope>,
    /// The distances found so far.
    pub locals: Map<usize, usize>,
}

/// The scope of the native functions, which is below every other.
pub open spec fn native_scope() -> Scope {
    Map::<Seq<char>, bool>::empty().insert("println"@, true).insert("clock"@, true)
}

/// The state of a resolver that has seen nothing yet: the scope of the
/// native functions, and above it the scope of the program.
pub open spec fn initial() -> ResolverView {
    ResolverView {
        scopes: seq![native_scope(), Map::<Seq<char>, bool>::empty()],
        locals: Map::<usize, usize>::empty(),
    }
}

/// `name` is entered in the innermost scope as defined or not.
pub open spec fn mark(state: ResolverView, name: Seq<char>, defined: bool) -> ResolverView {
    if state.scopes.len() == 0 {
        state
    } else {
        ResolverView {
            scopes: state.scopes.drop_last().push(state.scopes.last().insert(name, defined)),
            locals: state.locals,
        }
    }
}

/// `name` is declared in the innermost scope: seen, and not defined yet.
pub open spec fn declare(state: ResolverView, name: Seq<char>) -> ResolverView {
    mark(state, name, false)
}

/// `name` is defined in the innermost scope.
pub open spec fn define(state: ResolverView, name: Seq<char>) -> ResolverView {
    mark(state, name, true)
}

/// A new innermost scope is opened.
pub open spec fn begin_scope(state: ResolverView) -> ResolverView {
    ResolverView { scopes: state.scopes.push(Map::empty()), locals: state.locals }
}

/// The innermost scope is closed.
pub open spec fn end_scope(state: ResolverView) -> ResolverView {
    if state.scopes.len() == 0 {
        state
    } else {
        ResolverView { scopes: state.scopes.drop_last(), locals: state.locals }
    }
}

/// Whether `scope` holds `name` as defined.
pub open spec fn defines(scope: Scope, name: Seq<char>) -> bool {
    scope.contains_key(name) && scope[name]
}

/// The number of scopes between the innermost scope and the innermost scope
/// that defines `name`, if one does.
pub open spec fn distance(scopes: Seq<Scope>, name: Seq<char>) -> Option<nat>
    decreases scopes.len(),
{
    if scopes.len() == 0 {
        None
    } else if defines(scopes.last(), name) {
        Some(0)
    } else {
        match distance(scopes.drop_last(), name) {
            Some(d) => Some(d + 1),
            None => None,
        }
    }
}

/// The use or assignment `id` of `name` is resolved.
pub open spec fn resolve_local(state: ResolverView, name: Seq<char>, id: nat) -> Result<
    ResolverView,
    ResolveErrorView,
> {
    match distance(state.scopes, name) {
        Some(d) => Ok(
            ResolverView { scopes: state.scopes, locals: state.locals.insert(id as usize, d as usize) },
        ),
        None => Err(ResolveErrorView::UndefinedVariable { name }),
    }
}

/// Whether the innermost scope holds `name` as declared and not defined.
pub open spec fn in_own_initializer(state: ResolverView, name: Seq<char>) -> bool {
    state.scopes.len() > 0 && state.scopes.last().contains_key(name) && !state.scopes.last()[name]
}

/// The expression `expr` is resolved.
pub open spec fn resolve_expr(state: ResolverView, expr: ExprView) -> Result<
    ResolverView,
    ResolveErrorView,
>
    decreases expr, 0nat,
{
    match expr {
        ExprView::Ternary { conditional, true_case, false_case } => match resolve_expr(
            state,
            *conditional,
        ) {
            Ok(first) => match resolve_expr(first, *true_case) {
                Ok(second) => resolve_expr(second, *false_case),
                Err(error) => Err(error),
            },
            Err(error) => Err(error),
        },
        ExprView::Binary { left, right, .. } => match resolve_expr(state, *left) {
            Ok(first) => resolve_expr(first, *right),
            Err(error) => Err(error),
        },
        ExprView::Unary { expr, .. } => resolve_expr(state, *expr),
        ExprView::Grouping { expr } => resolve_expr(state, *expr),
        ExprView::Literal { value } => match value {
            LiteralView::Identifier { name, id } => {
                if in_own_initializer(state, name) {
                    Err(ResolveErrorView::OwnInitializer { name })
                } else {
                    resolve_local(state, name, id)
                }
            },
            _ => Ok(state),
        },
        ExprView::Assignment { name, expression, id } => match resolve_expr(state, *expression) {
            Ok(first) => resolve_local(first, name, id),
            Err(error) => Err(error),
        },
        ExprView::Call { function, arguments } => match resolve_expr(state, *function) {
            Ok(first) => resolve_exprs(first, arguments, 0),
            Err(error) => Err(error),
        },
    }
}

/// The expressions `exprs[from..]` are resolved, in order.
pub open spec fn resolve_exprs(state: ResolverView, exprs: Seq<ExprView>, from: nat) -> Result<
    ResolverView,
    ResolveErrorView,
>
    decreases exprs, exprs.len() - from,
{
    if from >= exprs.len() {
        Ok(state)
    } else {
        match resolve_expr(state, exprs[from as int]) {
            Ok(next) => resolve_exprs(next, exprs, from + 1),
            Err(error) => Err(error),
        }
    }
}

/// The names `names[from..]` are defined in the innermost scope, in order.
pub open spec fn define_all(state: ResolverView, names: Seq<Seq<char>>, from: nat) -> ResolverView
    decreases names.len() - from,
{
    if from >= names.len() {
        state
    } else {
        define_all(define(declare(state, names[from as int]), names[from as int]), names, from + 1)
    }
}

/// The statement `stmt` is resolved.
pub open spec fn resolve_stmt(state: ResolverView, stmt: StmtView) -> Result<
    ResolverView,
    ResolveErrorView,
>
    decreases stmt, 0nat,
{
    match stmt {
        StmtView::Expression { expression } => resolve_expr(state, expression),
        StmtView::Declaration { name, initializer } => match resolve_expr(
            declare(state, name),
            initializer,
        ) {
            Ok(next) => Ok(define(next, name)),
            Err(error) => Err(error),
        },
        StmtView::FunDeclaration { name, parameters, body } => match resolve_stmts(
            define_all(begin_scope(define(declare(state, name), name)), parameters, 0),
            body,
            0,
        ) {
            Ok(next) => Ok(end_scope(next)),
            Err(error) => Err(error),
        },
        StmtView::Block { statements } => match resolve_stmts(begin_scope(state), statements, 0) {
            Ok(next) => Ok(end_scope(next)),
            Err(error) => Err(error),
        },
        StmtView::While { condition, statement } => match resolve_expr(state, condition) {
            Ok(next) => resolve_stmt(next, *statement),
            Err(error) => Err(error),
        },
        StmtView::If { condition, true_case, false_case } => match resolve_expr(state, condition) {
            Ok(first) => match resolve_stmt(first, *true_case) {
                Ok(second) => match false_case {
                    Some(stmt) => resolve_stmt(second, *stmt),
                    None => Ok(second),
                },
                Err(error) => Err(error),
            },
            Err(error) => Err(error),
        },
    }
}

/// The statements `stmts[from..]` are resolved, in order.
pub open spec fn resolve_stmts(state: ResolverView, stmts: Seq<StmtView>, from: nat) -> Result<
    ResolverView,
    ResolveErrorView,
>
    decreases stmts, stmts.len() - from,
{
    if from >= stmts.len() {
        Ok(state)
    } else {
        match resolve_stmt(state, stmts[from as int]) {
            Ok(next) => resolve_stmts(next, stmts, from + 1),
            Err(error) => Err(error),
        }
    }
}

/// The distances of the program `program`, or what is wrong with its scopes.
pub open spec fn resolve(program: Seq<StmtView>) -> Result<Map<usize, usize>, ResolveErrorView> {
    match resolve_stmts(initial(), program, 0) {
        Ok(state) => Ok(state.locals),
        Err(error) => Err(error),
    }
}

/// The identities of the uses of variables and of the assignments in `expr`.
pub open spec fn expr_ids(expr: ExprView) -> Set<nat>
    decreases expr, 0nat,
{
    match expr {
        ExprView::Ternary { conditional, true_case, false_case } => expr_ids(*conditional)
            + expr_ids(*true_case) + expr_ids(*false_case),
        ExprView::Binary { left, right, .. } => expr_ids(*left) + expr_ids(*right),
        ExprView::Unary { expr, .. } => expr_ids(*expr),
        ExprView::Grouping { expr } => expr_ids(*expr),
        ExprView::Literal { value } => match value {
            LiteralView::Identifier { id, .. } => set![id],
            _ => Set::empty(),
        },
        ExprView::Assignment { expression, id, .. } => expr_ids(*expression).insert(id),
        ExprView::Call { function, arguments } => expr_ids(*function) + exprs_ids(arguments, 0),
    }
}

/// The identities in the expressions `exprs[from..]`.
pub open spec fn exprs_ids(exprs: Seq<ExprView>, from: nat) -> Set<nat>
    decreases exprs, exprs.len() - from,
{
    if from >= exprs.len() {
        Set::empty()
    } else {
        expr_ids(exprs[from as int]) + exprs_ids(exprs, from + 1)
    }
}

/// The identities of the uses of variables and of the assignments in `stmt`.
pub open spec fn stmt_ids(stmt: StmtView) -> Set<nat>
    decreases stmt, 0nat,
{
    match stmt {
        StmtView::Expression { expression } => expr_ids(expression),
        StmtView::Declaration { initializer, .. } => expr_ids(initializer),
        StmtView::FunDeclaration { body, .. } => stmts_ids(body, 0),
        StmtView::Block { statements } => stmts_ids(statements, 0),
        StmtView::While { condition, statement } => expr_ids(condition) + stmt_ids(*statement),
        StmtView::If { condition, true_case, false_case } => expr_ids(condition) + stmt_ids(
            *true_case,
        ) + match false_case {
            Some(stmt) => stmt_ids(*stmt),
            None => Set::empty(),
        },
    }
}

/// The identities in the statements `stmts[from..]`.
pub open spec fn stmts_ids(stmts: Seq<StmtView>, from: nat) -> Set<nat>
    decreases stmts, stmts.len() - from,
{
    if from >= stmts.len() {
        Set::empty()
    } else {
        stmt_ids(stmts[from as int]) + stmts_ids(stmts, from + 1)
    }
}

/// The resolver got from `pre` to `post` and lost no distance on the way,
/// and found one for each identity of `ids`.
pub open spec fn covers(pre: ResolverView, post: ResolverView, ids: Set<nat>) -> bool {
    &&& post.scopes.len() == pre.scopes.len()
    &&& forall|id: usize| pre.locals.contains_key(id) ==> post.locals.contains_key(id)
    &&& forall|id: nat| ids.contains(id) ==> post.locals.contains_key(id as usize)
}

/// The distance of a name is the place of the innermost scope that defines
/// it, counted from the innermost scope: the scope at the distance defines
/// the name, and no scope inside it does.
pub proof fn distance_leads_to_the_definition(scopes: Seq<Scope>, name: Seq<char>)
    ensures
        match distance(scopes, name) {
            Some(d) => d < scopes.len() && defines(scopes[scopes.len() - 1 - d], name)
                && forall|j: int|
                scopes.len() - 1 - d < j < scopes.len() ==> !defines(#[trigger] scopes[j], name),
            None => forall|j: int| 0 <= j < scopes.len() ==> !defines(#[trigger] scopes[j], name),
        },
    decreases scopes.len(),
{
    if scopes.len() > 0 && !defines(scopes.last(), name) {
        let below = scopes.drop_last();
        distance_leads_to_the_definition(below, name);
        assert forall|j: int| 0 <= j < below.len() implies #[trigger] scopes[j] == below[j] by {}
    }
}

/// Where an expression resolves, a distance is found for each of its
/// identities.
pub proof fn resolved_expr_is_covered(state: ResolverView, expr: ExprView)
    ensures
        resolve_expr(state, expr) matches Ok(post) ==> covers(state, post, expr_ids(expr))
            && post.scopes == state.scopes,
    decreases expr, 0nat,
{
    match expr {
        ExprView::Ternary { conditional, true_case, false_case } => {
            resolved_expr_is_covered(state, *conditional);
            if let Ok(first) = resolve_expr(state, *conditional) {
                resolved_expr_is_covered(first, *true_case);
                if let Ok(second) = resolve_expr(first, *true_case) {
                    resolved_expr_is_covered(second, *false_case);
                }
            }
        },
        ExprView::Binary { left, right, .. } => {
            resolved_expr_is_covered(state, *left);
            if let Ok(first) = resolve_expr(state, *left) {
                resolved_expr_is_covered(first, *right);
            }
        },
        ExprView::Unary { expr, .. } => {
            resolved_expr_is_covered(state, *expr);
        },
        ExprView::Grouping { expr } => {
            resolved_expr_is_covered(state, *expr);
        },
        ExprView::Literal { value } => {},
        ExprView::Assignment { name, expression, id } => {
            resolved_expr_is_covered(state, *expression);
        },
        ExprView::Call { function, arguments } => {
            resolved_expr_is_covered(state, *function);
            if let Ok(first) = resolve_expr(state, *function) {
                resolved_exprs_are_covered(first, arguments, 0);
            }
        },
    }
}

/// Where expressions resolve, a distance is found for each of their
/// identities.
pub proof fn resolved_exprs_are_covered(state: ResolverView, exprs: Seq<ExprView>, from: nat)
    ensures
        resolve_exprs(state, exprs, from) matches Ok(post) ==> covers(
            state,
            post,
            exprs_ids(exprs, from),
        ) && post.scopes == state.scopes,
    decreases exprs, exprs.len() - from,
{
    if from < exprs.len() {
        resolved_expr_is_covered(state, exprs[from as int]);
        if let Ok(next) = resolve_expr(state, exprs[from as int]) {
            resolved_exprs_are_covered(next, exprs, from + 1);
        }
    }
}

/// Defining names keeps the number of scopes and the distances found.
proof fn lemma_define_all(state: ResolverView, names: Seq<Seq<char>>, from: nat)
    ensures
        define_all(state, names, from).scopes.len() == state.scopes.len(),
        define_all(state, names, from).locals == state.locals,
    decreases names.len() - from,
{
    if from < names.len() {
        lemma_define_all(define(declare(state, names[from as int]), names[from as int]), names, from + 1);
    }
}

/// Where a statement resolves, a distance is found for each of its
/// identities.
pub proof fn resolved_stmt_is_covered(state: ResolverView, stmt: StmtView)
    ensures
        resolve_stmt(state, stmt) matches Ok(post) ==> covers(state, post, stmt_ids(stmt)),
    decreases stmt, 0nat,
{
    match stmt {
        StmtView::Expression { expression } => {
            resolved_expr_is_covered(state, expression);
        },
        StmtView::Declaration { name, initializer } => {
            resolved_expr_is_covered(declare(state, name), initializer);
        },
        StmtView::FunDeclaration { name, parameters, body } => {
            let inner = begin_scope(define(declare(state, name), name));
            lemma_define_all(inner, parameters, 0);
            resolved_stmts_are_covered(define_all(inner, parameters, 0), body, 0);
        },
        StmtView::Block { statements } => {
            resolved_stmts_are_covered(begin_scope(state), statements, 0);
        },
        StmtView::While { condition, statement } => {
            resolved_expr_is_covered(state, condition);
            if let Ok(next) = resolve_expr(state, condition) {
                resolved_stmt_is_covered(next, *statement);
            }
        },
        StmtView::If { condition, true_case, false_case } => {
            resolved_expr_is_covered(state, condition);
            if let Ok(first) = resolve_expr(state, condition) {
                resolved_stmt_is_covered(first, *true_case);
                if let Ok(second) = resolve_stmt(first, *true_case) {
                    if let Some(stmt) = false_case {
                        resolved_stmt_is_covered(second, *stmt);
                    }
                }
            }
        },
    }
}

/// Where statements resolve, a distance is found for each of their
/// identities.
pub proof fn resolved_stmts_are_covered(state: ResolverView, stmts: Seq<StmtView>, from: nat)
    ensures
        resolve_stmts(state, stmts, from) matches Ok(post) ==> covers(
            state,
            post,
            stmts_ids(stmts, from),
        ),
    decreases stmts, stmts.len() - from,
{
    if from < stmts.len() {
        resolved_stmt_is_covered(state, stmts[from as int]);
        if let Ok(next) = resolve_stmt(state, stmts[from as int]) {
            resolved_stmts_are_covered(next, stmts, from + 1);
        }
    }
}

/// The distances of a program are total: where a program resolves, a
/// distance is found for every use of a variable and every assignment in it.
pub proof fn locals_are_total(program: Seq<StmtView>, id: nat)
    requires
        resolve(program) is Ok,
        stmts_ids(program, 0).contains(id),
    ensures
        resolve(program)->Ok_0.contains_key(id as usize),
{
    resolved_stmts_are_covered(initial(), program, 0);
}

/// The resolver.
pub struct Resolver {
    scopes: Vec<StringHashMap<bool>>,
    locals: Locals,
}

/// The resolver got from `pre` to `post` as `outcome` tells, and `got` tells
/// the same.
pub open spec fn resolved(
    post: ResolverView,
    got: Result<(), ResolveError>,
    outcome: Result<ResolverView, ResolveErrorView>,
) -> bool {
    match got {
        Ok(_) => outcome == Ok::<ResolverView, ResolveErrorView>(post),
        Err(error) => outcome == Err::<ResolverView, ResolveErrorView>(error@),
    }
}

impl View for Resolver {
    type V = ResolverView;

    closed spec fn view(&self) -> ResolverView {
        ResolverView {
            scopes: Seq::new(self.scopes@.len(), |i: int| self.scopes@[i]@),
            locals: self.locals@,
        }
    }
}

impl Resolver {
    /// A resolver that has seen nothing yet.
    pub fn new() -> (resolver: Self)
        ensures
            resolver@ == initial(),
    {
        let mut natives: StringHashMap<bool> = StringHashMap::new();
        natives.insert("println".to_owned(), true);
        natives.insert("clock".to_owned(), true);
        let mut scopes: Vec<StringHashMap<bool>> = Vec::new();
        scopes.push(natives);
        scopes.push(StringHashMap::new());
        let resolver = Resolver { scopes, locals: HashMap::new() };
        assert(resolver@.scopes =~= initial().scopes);
        resolver
    }

    /// Resolves `program`: the distances of its uses and assignments, or
    /// what is wrong with its scopes.
    pub fn resolve_program(self, program: &Vec<Stmt>) -> (locals: Result<Locals, ResolveError>)
        ensures
            match locals {
                Ok(found) => resolve_stmts(self@, stmt_views(program@), 0) matches Ok(state)
                    && state.locals == found@,
                Err(error) => resolve_stmts(self@, stmt_views(program@), 0) == Err::<
                    ResolverView,
                    ResolveErrorView,
                >(error@),
            },
    {
        let mut resolver = self;
        match resolver.resolve_stmts(program) {
            Ok(_) => Ok(resolver.locals),
            Err(error) => Err(error),
        }
    }

    fn resolve_expr(&mut self, expr: &Expr) -> (got: Result<(), ResolveError>)
        ensures
            resolved(final(self)@, got, resolve_expr(old(self)@, expr@)),
        decreases expr, 0nat,
    {
        match expr {
            Expr::Ternary { conditional, true_case, false_case } => {
                if let Err(error) = self.resolve_expr(conditional) {
                    return Err(error);
                }
                if let Err(error) = self.resolve_expr(true_case) {
                    return Err(error);
                }
                self.resolve_expr(false_case)
            },
            Expr::Binary { left, right, .. } => {
                if let Err(error) = self.resolve_expr(left) {
                    return Err(error);
                }
                self.resolve_expr(right)
            },
            Expr::Unary { expr, .. } => self.resolve_expr(expr),
            Expr::Grouping { expr } => self.resolve_expr(expr),
            Expr::Literal { value } => {
                if let Literal::Identifier { name, id } = value {
                    if self.in_own_initializer(name.as_str()) {
                        return Err(ResolveError::OwnInitializer { name: name.clone() });
                    }
                    self.resolve_local(name.as_str(), *id)
                } else {
                    Ok(())
                }
            },
            Expr::Assignment { name, expression, id } => {
                if let Err(error) = self.resolve_expr(expression) {
                    return Err(error);
                }
                self.resolve_local(name.as_str(), *id)
            },
            Expr::Call { arguments, function } => {
                if let Err(error) = self.resolve_expr(function) {
                    return Err(error);
                }
                let mut i: usize = 0;
                proof {
                    lemma_expr_views(arguments@);
                }
                while i < arguments.len()
                    invariant
                        i <= arguments@.len(),
                        expr_views(arguments@).len() == arguments@.len(),
                        forall|k: int|
                            0 <= k < arguments@.len() ==> (#[trigger] expr_views(arguments@)[k])
                                == arguments@[k]@,
                        resolve_expr(old(self)@, expr@) == resolve_exprs(
                            self@,
                            expr_views(arguments@),
                            i as nat,
                        ),
                        expr matches Expr::Call { arguments: list, .. } && list == arguments,
                    decreases arguments@.len() - i,
                {
                    if let Err(error) = self.resolve_expr(&arguments[i]) {
                        return Err(error);
                    }
                    i += 1;
                }
                Ok(())
            },
        }
    }

    fn resolve_stmt(&mut self, stmt: &Stmt) -> (got: Result<(), ResolveError>)
        ensures
            resolved(final(self)@, got, resolve_stmt(old(self)@, stmt@)),
        decreases stmt, 0nat,
    {
        match stmt {
            Stmt::Expression { expression } => self.resolve_expr(expression),
            Stmt::Declaration { name, initializer } => {
                self.declare(name.as_str());
                if let Err(error) = self.resolve_expr(initializer) {
                    return Err(error);
                }
                self.define(name.as_str());
                Ok(())
            },
            Stmt::FunDeclaration { name, body, parameters } => {
                self.declare(name.as_str());
                self.define(name.as_str());
                self.begin_scope();
                let ghost start = self@;
                let mut i: usize = 0;
                while i < parameters.len()
                    invariant
                        i <= parameters@.len(),
                        define_all(start, name_views(parameters@), 0) == define_all(
                            self@,
                            name_views(parameters@),
                            i as nat,
                        ),
                    decreases parameters@.len() - i,
                {
                    self.declare(parameters[i].as_str());
                    self.define(parameters[i].as_str());
                    i += 1;
                }
                if let Err(error) = self.resolve_stmts(body) {
                    return Err(error);
                }
                self.end_scope();
                Ok(())
            },
            Stmt::Block { statements } => {
                self.begin_scope();
                if let Err(error) = self.resolve_stmts(statements) {
                    return Err(error);
                }
                self.end_scope();
                Ok(())
            },
            Stmt::While { statement, condition } => {
                if let Err(error) = self.resolve_expr(condition) {
                    return Err(error);
                }
                self.resolve_stmt(statement)
            },
            Stmt::If { condition, true_case, false_case } => {
                if let Err(error) = self.resolve_expr(condition) {
                    return Err(error);
                }
                if let Err(error) = self.resolve_stmt(true_case) {
                    return Err(error);
                }
                if let Some(stmt) = false_case {
                    self.resolve_stmt(stmt)
                } else {
                    Ok(())
                }
            },
        }
    }

    /// Resolves the statements of `stmts`, in order.
    fn resolve_stmts(&mut self, stmts: &Vec<Stmt>) -> (got: Result<(), ResolveError>)
        ensures
            resolved(final(self)@, got, resolve_stmts(old(self)@, stmt_views(stmts@), 0)),
        decreases stmts, 1nat,
    {
        let mut i: usize = 0;
        proof {
            lemma_stmt_views(stmts@);
        }
        while i < stmts.len()
            invariant
                i <= stmts@.len(),
                stmt_views(stmts@).len() == stmts@.len(),
                forall|k: int|
                    0 <= k < stmts@.len() ==> (#[trigger] stmt_views(stmts@)[k]) == stmts@[k]@,
                resolve_stmts(old(self)@, stmt_views(stmts@), 0) == resolve_stmts(
                    self@,
                    stmt_views(stmts@),
                    i as nat,
                ),
            decreases stmts@.len() - i,
        {
            if let Err(error) = self.resolve_stmt(&stmts[i]) {
                return Err(error);
            }
            i += 1;
        }
        Ok(())
    }

    /// Opens a new innermost scope.
    pub fn begin_scope(&mut self)
        ensures
            final(self)@ == begin_scope(old(self)@),
    {
        self.scopes.push(StringHashMap::new());
        assert(self@.scopes =~= begin_scope(old(self)@).scopes);
    }

    /// Closes the innermost scope.
    pub fn end_scope(&mut self)
        ensures
            final(self)@ == end_scope(old(self)@),
    {
        self.scopes.pop();
        assert(self@.scopes =~= end_scope(old(self)@).scopes);
    }

    fn mark(&mut self, name: &str, defined: bool)
        ensures
            final(self)@ == mark(old(self)@, name@, defined),
    {
        if let Some(scope) = self.scopes.pop() {
            let mut scope = scope;
            scope.insert(name.to_owned(), defined);
            self.scopes.push(scope);
        }
        assert(self@.scopes =~= mark(old(self)@, name@, defined).scopes);
    }

    /// Declares `name` in the innermost scope: seen, and not defined yet.
    pub fn declare(&mut self, name: &str)
        ensures
            final(self)@ == declare(old(self)@, name@),
    {
        self.mark(name, false)
    }

    /// Defines `name` in the innermost scope.
    pub fn define(&mut self, name: &str)
        ensures
            final(self)@ == define(old(self)@, name@),
    {
        self.mark(name, true)
    }

    /// Whether the innermost scope holds `name` as declared and not defined.
    fn in_own_initializer(&self, name: &str) -> (found: bool)
        ensures
            found == in_own_initializer(self@, name@),
    {
        let count = self.scopes.len();
        if count == 0 {
            return false;
        }
        match self.scopes[count - 1].get(name) {
            Some(defined) => !*defined,
            None => false,
        }
    }

    /// Resolves the use or the assignment `expr_id` of `name`.
    fn resolve_local(&mut self, name: &str, expr_id: usize) -> (got: Result<(), ResolveError>)
        ensures
            resolved(final(self)@, got, resolve_local(old(self)@, name@, expr_id as nat)),
    {
        let count = self.scopes.len();
        let mut index = count;
        assert(self@.scopes.take(index as int) == self@.scopes);
        while index > 0
            invariant
                index <= count,
                count == self.scopes@.len(),
                self@ == old(self)@,
                distance(self@.scopes, name@) == match distance(
                    self@.scopes.take(index as int),
                    name@,
                ) {
                    Some(d) => Some((d + (count - index)) as nat),
                    None => None,
                },
            decreases index,
        {
            proof {
                let below = self@.scopes.take(index as int);
                assert(below.drop_last() == self@.scopes.take(index - 1));
                assert(below.last() == self@.scopes[index - 1]);
            }
            index -= 1;
            let defined = match self.scopes[index].get(name) {
                Some(defined) => *defined,
                None => false,
            };
            if defined {
                self.locals.insert(expr_id, count - 1 - index);
                return Ok(());
            }
        }
        assert(self@.scopes.take(0).len() == 0);
        Err(ResolveError::UndefinedVariable { name: name.to_owned() })
    }
}

} // verus!
