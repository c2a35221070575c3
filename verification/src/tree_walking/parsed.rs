//! What the parser reads is tidy.
//!
//! The parser hands out one identity after the other, so the identities of
//! what it reads are all different; it reads no more identities than tokens;
//! and it gives blocks to loops and to `if` as their bodies.

use crate::scanner::TokenView;
use crate::tree_walking::ast::{ExprView, StmtView};
use crate::tree_walking::grammar::{
    arguments, assignment, at_end, atom, binary, binary_rest, block, block_rest, calls,
    declaration, else_, expr_stmt, expression, finish_call, function_declaration, if_, kind_at,
    left, lemma_declaration_reads, lemma_program_is_read, operand, parameter_list, parameters,
    primary, program, program_rest, skipped, statement, synchronize, ternary, unary,
    variable_declaration, while_, with_declared, Level, Parsed, ParsedStmt,
};
use crate::tree_walking::resolved::{tidy_expr, tidy_exprs, tidy_stmt, tidy_stmts};
use crate::tree_walking::resolver::{expr_ids, exprs_ids, stmt_ids, stmts_ids};
use vstd::prelude::*;

verus! {

/// The identities of `ids` are `low` at least and less than `high`.
pub open spec fn within(ids: Set<nat>, low: nat, high: nat) -> bool {
    forall|n: nat| ids.contains(n) ==> low <= n < high
}

/// With `id` the next free identity at `pos`, every identity that can be
/// handed out from `pos` on is a machine word.
pub open spec fn bounded(tokens: Seq<TokenView>, pos: nat, id: nat) -> bool {
    id + left(tokens, pos) <= usize::MAX + 1
}

/// What was read of an expression is in order: no more identities were
/// handed out than tokens were read, no more tokens were read than there
/// are, and the expression is tidy with its identities among those handed
/// out, or among them and those from `low` on that were handed out before.
pub open spec fn neat(
    tokens: Seq<TokenView>,
    pos: nat,
    low: nat,
    id: nat,
    read: Parsed<ExprView>,
) -> bool {
    &&& read.ids <= read.consumed <= left(tokens, pos)
    &&& read.result matches Ok(expr) ==> tidy_expr(expr) && within(
        expr_ids(expr),
        low,
        id + read.ids,
    )
}

/// What was read of a list of expressions is in order.
pub open spec fn neat_list(
    tokens: Seq<TokenView>,
    pos: nat,
    low: nat,
    id: nat,
    read: Parsed<Seq<ExprView>>,
) -> bool {
    &&& read.ids <= read.consumed <= left(tokens, pos)
    &&& read.result matches Ok(exprs) ==> tidy_exprs(exprs, 0) && within(
        exprs_ids(exprs, 0),
        low,
        id + read.ids,
    )
}

/// Identities below a bound and identities from the bound on are different.
pub proof fn lemma_apart(first: Set<nat>, second: Set<nat>, low: nat, middle: nat, high: nat)
    requires
        within(first, low, middle),
        within(second, middle, high),
        low <= middle <= high,
    ensures
        first.disjoint(second),
        second.disjoint(first),
        within(first + second, low, high),
{
}

/// The identities of expressions with one more behind them.
pub proof fn lemma_exprs_ids_push(exprs: Seq<ExprView>, expr: ExprView, from: nat)
    requires
        from <= exprs.len(),
    ensures
        exprs_ids(exprs.push(expr), from) =~= exprs_ids(exprs, from) + expr_ids(expr),
    decreases exprs.len() - from,
{
    if from < exprs.len() {
        lemma_exprs_ids_push(exprs, expr, from + 1);
        assert(exprs.push(expr)[from as int] == exprs[from as int]);
    } else {
        assert(exprs_ids(exprs.push(expr), from + 1) =~= Set::<nat>::empty());
    }
}

/// Tidy expressions with a tidy one behind them, whose identities are
/// others, are tidy.
pub proof fn lemma_tidy_exprs_push(exprs: Seq<ExprView>, expr: ExprView, from: nat)
    requires
        from <= exprs.len(),
        tidy_exprs(exprs, from),
        tidy_expr(expr),
        exprs_ids(exprs, from).disjoint(expr_ids(expr)),
    ensures
        tidy_exprs(exprs.push(expr), from),
    decreases exprs.len() - from,
{
    if from < exprs.len() {
        let head = expr_ids(exprs[from as int]);
        assert(exprs_ids(exprs, from) == head + exprs_ids(exprs, from + 1));
        assert(exprs_ids(exprs, from + 1).disjoint(expr_ids(expr))) by {
            assert forall|n: nat| exprs_ids(exprs, from + 1).contains(n) implies !expr_ids(
                expr,
            ).contains(n) by {
                assert(exprs_ids(exprs, from).contains(n));
            }
        }
        lemma_tidy_exprs_push(exprs, expr, from + 1);
        lemma_exprs_ids_push(exprs, expr, from + 1);
        assert(exprs.push(expr)[from as int] == exprs[from as int]);
        assert(head.disjoint(exprs_ids(exprs.push(expr), from + 1))) by {
            assert forall|n: nat| head.contains(n) implies !exprs_ids(
                exprs.push(expr),
                from + 1,
            ).contains(n) by {
                assert(exprs_ids(exprs, from).contains(n));
                assert(!expr_ids(expr).contains(n));
                assert(!exprs_ids(exprs, from + 1).contains(n));
            }
        }
        assert(tidy_expr(exprs.push(expr)[from as int]));
        assert(tidy_exprs(exprs.push(expr), from + 1));
    } else {
        assert(exprs_ids(exprs.push(expr), from + 1) =~= Set::<nat>::empty());
        assert(exprs.push(expr)[from as int] == expr);
        assert(tidy_exprs(exprs.push(expr), from + 1));
        assert(expr_ids(expr).disjoint(exprs_ids(exprs.push(expr), from + 1)));
    }
}

/// A literal, the use of a variable or an expression in parentheses that
/// the parser reads is in order.
pub proof fn lemma_atom(tokens: Seq<TokenView>, pos: nat, id: nat)
    requires
        bounded(tokens, pos, id),
    ensures
        neat(tokens, pos, id, id, atom(tokens, pos, id)),
    decreases left(tokens, pos), 0nat, 1nat,
{
    reveal(expression);
    if kind_at(tokens, pos) is LeftParen {
        lemma_expression(tokens, pos + 1, id);
    }
}

/// A primary expression that the parser reads is in order.
pub proof fn lemma_primary(tokens: Seq<TokenView>, pos: nat, id: nat)
    requires
        bounded(tokens, pos, id),
    ensures
        neat(tokens, pos, id, id, primary(tokens, pos, id)),
    decreases left(tokens, pos), 1nat, 0nat,
{
    lemma_atom(tokens, pos, id);
    let first = atom(tokens, pos, id);
    if let Ok(expr) = first.result {
        lemma_calls(tokens, expr, pos + first.consumed, id, id + first.ids);
    }
}

/// The calls that the parser reads behind a callee that is in order are in
/// order.
#[verifier::rlimit(30)]
pub proof fn lemma_calls(tokens: Seq<TokenView>, callee: ExprView, pos: nat, low: nat, id: nat)
    requires
        bounded(tokens, pos, id),
        tidy_expr(callee),
        within(expr_ids(callee), low, id),
        low <= id,
    ensures
        neat(tokens, pos, low, id, calls(tokens, callee, pos, id)),
    decreases left(tokens, pos), 0nat, 0nat,
{
    if kind_at(tokens, pos) is LeftParen {
        lemma_finish_call(tokens, pos + 1, id);
        let list = finish_call(tokens, pos + 1, id);
        if let Ok(arguments) = list.result {
            let call = ExprView::Call { function: Box::new(callee), arguments };
            let next = pos + 1 + list.consumed;
            lemma_apart(expr_ids(callee), exprs_ids(arguments, 0), low, id, id + list.ids);
            assert(tidy_expr(call));
            assert(within(expr_ids(call), low, id + list.ids));
            assert(left(tokens, next) + 1 + list.consumed <= left(tokens, pos));
            lemma_calls(tokens, call, next, low, id + list.ids);
            let rest = calls(tokens, call, next, id + list.ids);
            assert(calls(tokens, callee, pos, id) == rest.after(1 + list.consumed, list.ids));
        }
    }
}

/// The arguments of a call that the parser reads are in order.
pub proof fn lemma_finish_call(tokens: Seq<TokenView>, pos: nat, id: nat)
    requires
        bounded(tokens, pos, id),
    ensures
        neat_list(tokens, pos, id, id, finish_call(tokens, pos, id)),
    decreases left(tokens, pos), 12nat, 0nat,
{
    if !(kind_at(tokens, pos) is RightParen) {
        lemma_arguments(tokens, Seq::empty(), pos, id, id);
    }
}

/// The arguments that the parser reads behind arguments that are in order
/// are in order.
pub proof fn lemma_arguments(
    tokens: Seq<TokenView>,
    before: Seq<ExprView>,
    pos: nat,
    low: nat,
    id: nat,
)
    requires
        bounded(tokens, pos, id),
        tidy_exprs(before, 0),
        within(exprs_ids(before, 0), low, id),
        low <= id,
    ensures
        neat_list(tokens, pos, low, id, arguments(tokens, before, pos, id)),
    decreases left(tokens, pos), 11nat, 0nat,
{
    lemma_assignment(tokens, pos, id);
    let first = assignment(tokens, pos, id);
    if let Ok(expr) = first.result {
        let next = pos + first.consumed;
        lemma_apart(exprs_ids(before, 0), expr_ids(expr), low, id, id + first.ids);
        lemma_tidy_exprs_push(before, expr, 0);
        lemma_exprs_ids_push(before, expr, 0);
        if kind_at(tokens, next) is Comma {
            lemma_arguments(tokens, before.push(expr), next + 1, low, id + first.ids);
        }
    }
}

/// A unary expression that the parser reads is in order.
pub proof fn lemma_unary(tokens: Seq<TokenView>, pos: nat, id: nat)
    requires
        bounded(tokens, pos, id),
    ensures
        neat(tokens, pos, id, id, unary(tokens, pos, id)),
    decreases left(tokens, pos), 2nat, 0nat,
{
    if kind_at(tokens, pos) is Bang || kind_at(tokens, pos) is Minus {
        lemma_unary(tokens, pos + 1, id);
    } else {
        lemma_primary(tokens, pos, id);
    }
}

/// An operand that the parser reads is in order.
pub proof fn lemma_operand(tokens: Seq<TokenView>, level: Level, pos: nat, id: nat)
    requires
        bounded(tokens, pos, id),
    ensures
        neat(tokens, pos, id, id, operand(tokens, level, pos, id)),
    decreases left(tokens, pos), level.rank(), 0nat,
{
    match level {
        Level::Comma => lemma_assignment(tokens, pos, id),
        Level::Or => lemma_binary(tokens, Level::And, pos, id),
        Level::And => lemma_ternary(tokens, pos, id),
        Level::Equality => lemma_binary(tokens, Level::Comparison, pos, id),
        Level::Comparison => lemma_binary(tokens, Level::Term, pos, id),
        Level::Term => lemma_binary(tokens, Level::Factor, pos, id),
        Level::Factor => lemma_unary(tokens, pos, id),
    }
}

/// A chain of binary operators that the parser reads is in order.
pub proof fn lemma_binary(tokens: Seq<TokenView>, level: Level, pos: nat, id: nat)
    requires
        bounded(tokens, pos, id),
    ensures
        neat(tokens, pos, id, id, binary(tokens, level, pos, id)),
    decreases left(tokens, pos), level.rank(), 1nat,
{
    lemma_operand(tokens, level, pos, id);
    let first = operand(tokens, level, pos, id);
    if let Ok(expr) = first.result {
        lemma_binary_rest(tokens, level, expr, pos + first.consumed, id, id + first.ids);
    }
}

/// The binary operators that the parser reads behind an operand that is in
/// order are in order.
pub proof fn lemma_binary_rest(
    tokens: Seq<TokenView>,
    level: Level,
    lhs: ExprView,
    pos: nat,
    low: nat,
    id: nat,
)
    requires
        bounded(tokens, pos, id),
        tidy_expr(lhs),
        within(expr_ids(lhs), low, id),
        low <= id,
    ensures
        neat(tokens, pos, low, id, binary_rest(tokens, level, lhs, pos, id)),
    decreases left(tokens, pos), 0nat, 0nat,
{
    if let Some(operator) = level.operator(kind_at(tokens, pos)) {
        lemma_operand(tokens, level, pos + 1, id);
        let right = operand(tokens, level, pos + 1, id);
        if let Ok(expr) = right.result {
            lemma_apart(expr_ids(lhs), expr_ids(expr), low, id, id + right.ids);
            lemma_binary_rest(
                tokens,
                level,
                crate::tree_walking::grammar::binary_expr(operator, lhs, expr),
                pos + 1 + right.consumed,
                low,
                id + right.ids,
            );
        }
    }
}

/// A conditional expression that the parser reads is in order.
pub proof fn lemma_ternary(tokens: Seq<TokenView>, pos: nat, id: nat)
    requires
        bounded(tokens, pos, id),
    ensures
        neat(tokens, pos, id, id, ternary(tokens, pos, id)),
    decreases left(tokens, pos), 7nat, 0nat,
{
    lemma_binary(tokens, Level::Equality, pos, id);
    let first = binary(tokens, Level::Equality, pos, id);
    if let Ok(conditional) = first.result {
        let question = pos + first.consumed;
        if kind_at(tokens, question) is Question {
            lemma_binary(tokens, Level::Equality, question + 1, id + first.ids);
            let second = binary(tokens, Level::Equality, question + 1, id + first.ids);
            if let Ok(true_case) = second.result {
                let colon = question + 1 + second.consumed;
                let used = first.ids + second.ids;
                if kind_at(tokens, colon) is Colon {
                    lemma_ternary(tokens, colon + 1, id + used);
                    let third = ternary(tokens, colon + 1, id + used);
                    if let Ok(false_case) = third.result {
                        lemma_apart(
                            expr_ids(conditional),
                            expr_ids(true_case),
                            id,
                            id + first.ids,
                            id + used,
                        );
                        lemma_apart(
                            expr_ids(conditional) + expr_ids(true_case),
                            expr_ids(false_case),
                            id,
                            id + used,
                            id + used + third.ids,
                        );
                    }
                }
            }
        }
    }
}

/// An assignment that the parser reads is in order.
pub proof fn lemma_assignment(tokens: Seq<TokenView>, pos: nat, id: nat)
    requires
        bounded(tokens, pos, id),
    ensures
        neat(tokens, pos, id, id, assignment(tokens, pos, id)),
    decreases left(tokens, pos), 10nat, 0nat,
{
    lemma_binary(tokens, Level::Or, pos, id);
    let target = binary(tokens, Level::Or, pos, id);
    if let Ok(l_value) = target.result {
        let equal = pos + target.consumed;
        if kind_at(tokens, equal) is Eqal {
            lemma_assignment(tokens, equal + 1, id + target.ids);
        }
    }
}

/// An expression that the parser reads is in order.
pub proof fn lemma_expression(tokens: Seq<TokenView>, pos: nat, id: nat)
    requires
        bounded(tokens, pos, id),
    ensures
        neat(tokens, pos, id, id, expression(tokens, pos, id)),
    decreases left(tokens, pos), 12nat, 0nat,
{
    reveal(expression);
    lemma_binary(tokens, Level::Comma, pos, id);
}

/// With `depth` scopes open at `pos`, every scope that can be opened from
/// `pos` on is counted by a machine word.
pub open spec fn shallow(tokens: Seq<TokenView>, pos: nat, depth: nat) -> bool {
    depth + left(tokens, pos) <= usize::MAX
}

/// What was read of a statement is in order.
pub open spec fn neat_stmt(
    tokens: Seq<TokenView>,
    pos: nat,
    depth: nat,
    low: nat,
    id: nat,
    read: ParsedStmt<StmtView>,
) -> bool {
    &&& read.ids <= read.consumed <= left(tokens, pos)
    &&& read.result matches Ok(stmt) ==> tidy_stmt(depth, stmt) && within(
        stmt_ids(stmt),
        low,
        id + read.ids,
    )
}

/// What was read of a list of statements is in order.
pub open spec fn neat_stmts(
    tokens: Seq<TokenView>,
    pos: nat,
    depth: nat,
    low: nat,
    id: nat,
    read: ParsedStmt<Seq<StmtView>>,
) -> bool {
    &&& read.ids <= read.consumed <= left(tokens, pos)
    &&& read.result matches Ok(stmts) ==> tidy_stmts(depth, stmts, 0) && within(
        stmts_ids(stmts, 0),
        low,
        id + read.ids,
    )
}

/// What was read of a declaration is in order.
pub open spec fn neat_declared(
    tokens: Seq<TokenView>,
    pos: nat,
    depth: nat,
    id: nat,
    read: ParsedStmt<Option<StmtView>>,
) -> bool {
    &&& read.ids <= read.consumed <= left(tokens, pos)
    &&& read.result matches Ok(Some(stmt)) ==> tidy_stmt(depth, stmt) && within(
        stmt_ids(stmt),
        id,
        id + read.ids,
    )
}

/// The identities of statements with one more behind them.
pub proof fn lemma_stmts_ids_push(stmts: Seq<StmtView>, stmt: StmtView, from: nat)
    requires
        from <= stmts.len(),
    ensures
        stmts_ids(stmts.push(stmt), from) =~= stmts_ids(stmts, from) + stmt_ids(stmt),
    decreases stmts.len() - from,
{
    if from < stmts.len() {
        lemma_stmts_ids_push(stmts, stmt, from + 1);
        assert(stmts.push(stmt)[from as int] == stmts[from as int]);
    } else {
        assert(stmts_ids(stmts.push(stmt), from + 1) =~= Set::<nat>::empty());
    }
}

/// Tidy statements with a tidy one behind them, whose identities are
/// others, are tidy.
pub proof fn lemma_tidy_stmts_push(depth: nat, stmts: Seq<StmtView>, stmt: StmtView, from: nat)
    requires
        from <= stmts.len(),
        tidy_stmts(depth, stmts, from),
        tidy_stmt(depth, stmt),
        stmts_ids(stmts, from).disjoint(stmt_ids(stmt)),
    ensures
        tidy_stmts(depth, stmts.push(stmt), from),
    decreases stmts.len() - from,
{
    if from < stmts.len() {
        let head = stmt_ids(stmts[from as int]);
        assert(stmts_ids(stmts, from) == head + stmts_ids(stmts, from + 1));
        assert(stmts_ids(stmts, from + 1).disjoint(stmt_ids(stmt))) by {
            assert forall|n: nat| stmts_ids(stmts, from + 1).contains(n) implies !stmt_ids(
                stmt,
            ).contains(n) by {
                assert(stmts_ids(stmts, from).contains(n));
            }
        }
        lemma_tidy_stmts_push(depth, stmts, stmt, from + 1);
        lemma_stmts_ids_push(stmts, stmt, from + 1);
        assert(stmts.push(stmt)[from as int] == stmts[from as int]);
        assert(head.disjoint(stmts_ids(stmts.push(stmt), from + 1))) by {
            assert forall|n: nat| head.contains(n) implies !stmts_ids(
                stmts.push(stmt),
                from + 1,
            ).contains(n) by {
                assert(stmts_ids(stmts, from).contains(n));
                assert(!stmt_ids(stmt).contains(n));
                assert(!stmts_ids(stmts, from + 1).contains(n));
            }
        }
        assert(tidy_stmt(depth, stmts.push(stmt)[from as int]));
        assert(tidy_stmts(depth, stmts.push(stmt), from + 1));
    } else {
        assert(stmts_ids(stmts.push(stmt), from + 1) =~= Set::<nat>::empty());
        assert(stmts.push(stmt)[from as int] == stmt);
        assert(tidy_stmts(depth, stmts.push(stmt), from + 1));
        assert(stmt_ids(stmt).disjoint(stmts_ids(stmts.push(stmt), from + 1)));
    }
}

/// No more tokens are passed over than there are.
pub proof fn lemma_skipped(tokens: Seq<TokenView>, pos: nat)
    ensures
        skipped(tokens, pos) <= left(tokens, pos),
        synchronize(tokens, pos) <= left(tokens, pos),
    decreases left(tokens, pos),
{
    reveal(skipped);
    if pos < tokens.len() {
        lemma_skipped(tokens, pos + 1);
    }
}

/// An expression statement that the parser reads is in order.
pub proof fn lemma_expr_stmt(tokens: Seq<TokenView>, pos: nat, depth: nat, id: nat)
    requires
        bounded(tokens, pos, id),
    ensures
        neat_stmt(tokens, pos, depth, id, id, expr_stmt(tokens, pos, id)),
{
    reveal(expr_stmt);
    lemma_expression(tokens, pos, id);
}

/// The declaration of a variable that the parser reads is in order.
pub proof fn lemma_variable_declaration(tokens: Seq<TokenView>, pos: nat, depth: nat, id: nat)
    requires
        bounded(tokens, pos, id),
    ensures
        neat_stmt(tokens, pos, depth, id, id, variable_declaration(tokens, pos, id)),
{
    reveal(variable_declaration);
    if kind_at(tokens, pos) is Identifier && kind_at(tokens, pos + 1) is Eqal {
        lemma_expression(tokens, pos + 2, id);
    }
}

/// The parameters that the parser reads take no identity, and no more
/// tokens than there are.
pub proof fn lemma_parameters(tokens: Seq<TokenView>, before: Seq<Seq<char>>, pos: nat)
    ensures
        parameters(tokens, before, pos).ids == 0,
        parameters(tokens, before, pos).consumed <= left(tokens, pos),
    decreases left(tokens, pos),
{
    reveal(parameters);
    if let crate::scanner::TokenKind::Identifier(name) = kind_at(tokens, pos) {
        if kind_at(tokens, pos + 1) is Comma {
            lemma_parameters(tokens, before.push(name), pos + 2);
        }
    }
}

/// The list of parameters that the parser reads takes no identity, and no
/// more tokens than there are.
pub proof fn lemma_parameter_list(tokens: Seq<TokenView>, pos: nat)
    ensures
        parameter_list(tokens, pos).ids == 0,
        parameter_list(tokens, pos).consumed <= left(tokens, pos),
{
    reveal(parameter_list);
    lemma_parameters(tokens, Seq::empty(), pos);
}

/// Behind tokens that were read, so many fewer are left.
pub proof fn lemma_left(tokens: Seq<TokenView>, pos: nat, read: nat)
    requires
        read <= left(tokens, pos),
    ensures
        left(tokens, pos + read) + read == left(tokens, pos),
{
}

/// A declaration that the parser reads is in order.
pub proof fn lemma_declaration(tokens: Seq<TokenView>, pos: nat, depth: nat, id: nat)
    requires
        bounded(tokens, pos, id),
        shallow(tokens, pos, depth),
    ensures
        neat_declared(tokens, pos, depth, id, declaration(tokens, pos, id)),
    decreases left(tokens, pos), 2nat,
{
    reveal(declaration);
    reveal(function_declaration);
    reveal(statement);
    let read = if kind_at(tokens, pos) is Var {
        variable_declaration(tokens, pos + 1, id).shift(1, 0)
    } else if kind_at(tokens, pos) is Fun {
        function_declaration(tokens, pos + 1, id).shift(1, 0)
    } else {
        statement(tokens, pos, id)
    };
    if kind_at(tokens, pos) is Var {
        lemma_left(tokens, pos, 1);
        lemma_variable_declaration(tokens, pos + 1, depth, id);
    } else if kind_at(tokens, pos) is Fun {
        lemma_left(tokens, pos, 1);
        lemma_function_declaration(tokens, pos + 1, depth, id);
    } else {
        lemma_statement(tokens, pos, depth, id);
    }
    assert(neat_stmt(tokens, pos, depth, id, id, read));
    lemma_left(tokens, pos, read.consumed);
    lemma_skipped(tokens, pos + read.consumed);
}

/// The declaration of a function that the parser reads is in order.
pub proof fn lemma_function_declaration(tokens: Seq<TokenView>, pos: nat, depth: nat, id: nat)
    requires
        bounded(tokens, pos, id),
        shallow(tokens, pos, depth),
    ensures
        neat_stmt(tokens, pos, depth, id, id, function_declaration(tokens, pos, id)),
    decreases left(tokens, pos), 0nat,
{
    reveal_with_fuel(tidy_stmt, 3);
    reveal_with_fuel(stmt_ids, 3);
    reveal(function_declaration);
    reveal(block);
    if kind_at(tokens, pos) is Identifier && kind_at(tokens, pos + 1) is LeftParen {
        lemma_parameter_list(tokens, pos + 2);
        let list = parameter_list(tokens, pos + 2);
        let brace = pos + 2 + list.consumed;
        if list.result is Ok && kind_at(tokens, brace) is LeftBrace {
            lemma_block(tokens, brace + 1, depth + 1, id);
        }
    }
}

/// A statement that the parser reads is in order.
pub proof fn lemma_statement(tokens: Seq<TokenView>, pos: nat, depth: nat, id: nat)
    requires
        bounded(tokens, pos, id),
        shallow(tokens, pos, depth),
    ensures
        neat_stmt(tokens, pos, depth, id, id, statement(tokens, pos, id)),
    decreases left(tokens, pos), 1nat,
{
    reveal_with_fuel(tidy_stmt, 3);
    reveal_with_fuel(stmt_ids, 3);
    reveal(statement);
    reveal(block);
    reveal(while_);
    reveal(if_);
    if kind_at(tokens, pos) is LeftBrace {
        lemma_block(tokens, pos + 1, depth + 1, id);
    } else if kind_at(tokens, pos) is While {
        lemma_while(tokens, pos + 1, depth, id);
    } else if kind_at(tokens, pos) is If {
        lemma_if(tokens, pos + 1, depth, id);
    } else {
        lemma_expr_stmt(tokens, pos, depth, id);
    }
}

/// A block that the parser reads is in order; `depth` counts its own scope.
pub proof fn lemma_block(tokens: Seq<TokenView>, pos: nat, depth: nat, id: nat)
    requires
        bounded(tokens, pos, id),
        shallow(tokens, pos, depth),
    ensures
        neat_stmts(tokens, pos, depth, id, id, block(tokens, pos, id)),
    decreases left(tokens, pos), 5nat,
{
    reveal(block);
    reveal(block_rest);
    lemma_block_rest(tokens, Seq::empty(), pos, depth, id, id);
}

/// The statements that the parser reads behind statements that are in
/// order are in order.
pub proof fn lemma_block_rest(
    tokens: Seq<TokenView>,
    before: Seq<StmtView>,
    pos: nat,
    depth: nat,
    low: nat,
    id: nat,
)
    requires
        bounded(tokens, pos, id),
        shallow(tokens, pos, depth),
        tidy_stmts(depth, before, 0),
        within(stmts_ids(before, 0), low, id),
        low <= id,
    ensures
        neat_stmts(tokens, pos, depth, low, id, block_rest(tokens, before, pos, id)),
    decreases left(tokens, pos), 4nat,
{
    reveal(block_rest);
    reveal(declaration);
    if !(kind_at(tokens, pos) is RightBrace) && !at_end(tokens, pos) {
        lemma_declaration(tokens, pos, depth, id);
        let read = declaration(tokens, pos, id);
        if read.consumed > 0 {
            let after = with_declared(before, read);
            if let Ok(Some(stmt)) = read.result {
                lemma_apart(stmts_ids(before, 0), stmt_ids(stmt), low, id, id + read.ids);
                lemma_tidy_stmts_push(depth, before, stmt, 0);
                lemma_stmts_ids_push(before, stmt, 0);
            }
            lemma_block_rest(tokens, after, pos + read.consumed, depth, low, id + read.ids);
        }
    }
}

/// A loop that the parser reads is in order.
pub proof fn lemma_while(tokens: Seq<TokenView>, pos: nat, depth: nat, id: nat)
    requires
        bounded(tokens, pos, id),
        shallow(tokens, pos, depth),
    ensures
        neat_stmt(tokens, pos, depth, id, id, while_(tokens, pos, id)),
    decreases left(tokens, pos), 0nat,
{
    reveal_with_fuel(tidy_stmt, 3);
    reveal_with_fuel(stmt_ids, 3);
    reveal(while_);
    reveal(block);
    if kind_at(tokens, pos) is LeftParen {
        lemma_expression(tokens, pos + 1, id);
        let read = expression(tokens, pos + 1, id);
        let close = pos + 1 + read.consumed;
        if let Ok(condition) = read.result {
            if kind_at(tokens, close) is RightParen && kind_at(tokens, close + 1) is LeftBrace {
                lemma_block(tokens, close + 2, depth + 1, id + read.ids);
                let body = block(tokens, close + 2, id + read.ids);
                if let Ok(statements) = body.result {
                    lemma_apart(
                        expr_ids(condition),
                        stmts_ids(statements, 0),
                        id,
                        id + read.ids,
                        id + read.ids + body.ids,
                    );
                }
            }
        }
    }
}

/// An `if` that the parser reads is in order.
pub proof fn lemma_if(tokens: Seq<TokenView>, pos: nat, depth: nat, id: nat)
    requires
        bounded(tokens, pos, id),
        shallow(tokens, pos, depth),
    ensures
        neat_stmt(tokens, pos, depth, id, id, if_(tokens, pos, id)),
    decreases left(tokens, pos), 1nat,
{
    reveal_with_fuel(tidy_stmt, 3);
    reveal_with_fuel(stmt_ids, 3);
    reveal(if_);
    reveal(block);
    reveal(else_);
    if kind_at(tokens, pos) is LeftParen {
        lemma_expression(tokens, pos + 1, id);
        let read = expression(tokens, pos + 1, id);
        let close = pos + 1 + read.consumed;
        if let Ok(condition) = read.result {
            if kind_at(tokens, close) is RightParen && kind_at(tokens, close + 1) is LeftBrace {
                lemma_block(tokens, close + 2, depth + 1, id + read.ids);
                let first = block(tokens, close + 2, id + read.ids);
                if let Ok(true_case) = first.result {
                    lemma_else(
                        tokens,
                        condition,
                        true_case,
                        close + 2 + first.consumed,
                        depth,
                        id,
                        id + read.ids,
                        id + read.ids + first.ids,
                    );
                }
            }
        }
    }
}

/// What the parser reads behind the first block of an `if` is in order.
pub proof fn lemma_else(
    tokens: Seq<TokenView>,
    condition: ExprView,
    true_case: Seq<StmtView>,
    pos: nat,
    depth: nat,
    low: nat,
    middle: nat,
    id: nat,
)
    requires
        bounded(tokens, pos, id),
        shallow(tokens, pos, depth),
        depth + 1 <= usize::MAX,
        tidy_expr(condition),
        within(expr_ids(condition), low, middle),
        tidy_stmts(depth + 1, true_case, 0),
        within(stmts_ids(true_case, 0), middle, id),
        low <= middle <= id,
    ensures
        neat_stmt(tokens, pos, depth, low, id, else_(tokens, condition, true_case, pos, id)),
    decreases left(tokens, pos), 0nat,
{
    reveal_with_fuel(tidy_stmt, 3);
    reveal_with_fuel(stmt_ids, 3);
    reveal(else_);
    reveal(block);
    lemma_apart(expr_ids(condition), stmts_ids(true_case, 0), low, middle, id);
    if kind_at(tokens, pos) is Else && kind_at(tokens, pos + 1) is LeftBrace {
        lemma_block(tokens, pos + 2, depth + 1, id);
        let other = block(tokens, pos + 2, id);
        if let Ok(statements) = other.result {
            lemma_apart(
                expr_ids(condition) + stmts_ids(true_case, 0),
                stmts_ids(statements, 0),
                low,
                id,
                id + other.ids,
            );
        }
    }
}

/// The statements of a program that the parser reads behind statements
/// that are in order are in order.
pub proof fn lemma_program_rest(
    tokens: Seq<TokenView>,
    before: Seq<StmtView>,
    pos: nat,
    depth: nat,
    low: nat,
    id: nat,
)
    requires
        bounded(tokens, pos, id),
        shallow(tokens, pos, depth),
        tidy_stmts(depth, before, 0),
        within(stmts_ids(before, 0), low, id),
        low <= id,
    ensures
        neat_stmts(tokens, pos, depth, low, id, program_rest(tokens, before, pos, id)),
    decreases left(tokens, pos),
{
    reveal(program_rest);
    if !at_end(tokens, pos) {
        lemma_declaration(tokens, pos, depth, id);
        lemma_declaration_reads(tokens, pos, id);
        let read = declaration(tokens, pos, id);
        let after = with_declared(before, read);
        if let Ok(Some(stmt)) = read.result {
            lemma_apart(stmts_ids(before, 0), stmt_ids(stmt), low, id, id + read.ids);
            lemma_tidy_stmts_push(depth, before, stmt, 0);
            lemma_stmts_ids_push(before, stmt, 0);
        }
        lemma_program_rest(tokens, after, pos + read.consumed, depth, low, id + read.ids);
    }
}

/// The program that the parser reads is tidy: its identities are all
/// different, and the bodies of its loops and the branches of its `if` are
/// blocks.  (The tokens must be two fewer than a machine word counts, so
/// that the scopes of the program can be counted.)
pub proof fn parsed_program_is_tidy(tokens: Seq<TokenView>)
    requires
        tokens.len() + 2 <= usize::MAX,
    ensures
        tidy_stmts(2, program(tokens), 0),
{
    lemma_program_rest(tokens, Seq::empty(), 0, 2, 1, 1);
    lemma_program_is_read(tokens, Seq::empty(), 0, 1);
}

/// A machine that is about to run a program that the parser read and the
/// resolver resolved is in a sound state: the machine finds every variable
/// of the program where the resolver said it would be.
pub proof fn parsed_program_runs_sound(tokens: Seq<TokenView>)
    requires
        tokens.len() + 2 <= usize::MAX,
        crate::tree_walking::resolver::resolve(program(tokens)) is Ok,
    ensures
        crate::tree_walking::machine::loaded(
            crate::tree_walking::resolver::resolve(program(tokens))->Ok_0,
            program(tokens),
        ).sound(),
{
    parsed_program_is_tidy(tokens);
    crate::tree_walking::resolved::resolved_program_runs_sound(program(tokens));
}

} // verus!
