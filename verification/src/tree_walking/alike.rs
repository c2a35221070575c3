//! What the parser reads does not depend on the identities that it hands
//! out: with another first identity it reads the same program, but for the
//! identities.

use crate::scanner::TokenView;
use crate::tree_walking::ast::{ExprView, LiteralView, StmtView};
use crate::tree_walking::grammar::{
    arguments, assignment, at_end, atom, binary, binary_expr, binary_rest, block, block_rest,
    calls, declaration, else_, expr_stmt, expression, finish_call, function_declaration, if_,
    kind_at, left, lemma_declaration_reads, operand, primary, program_rest, statement, ternary,
    unary, variable_declaration, while_, with_declared, Level, Parsed, ParsedStmt,
};
use vstd::prelude::*;

verus! {

/// The expression, with 0 for each of its identities.
pub open spec fn without_ids(expr: ExprView) -> ExprView
    decreases expr, 0nat,
{
    match expr {
        ExprView::Ternary { conditional, true_case, false_case } => ExprView::Ternary {
            conditional: Box::new(without_ids(*conditional)),
            true_case: Box::new(without_ids(*true_case)),
            false_case: Box::new(without_ids(*false_case)),
        },
        ExprView::Binary { operator, left, right } => ExprView::Binary {
            operator,
            left: Box::new(without_ids(*left)),
            right: Box::new(without_ids(*right)),
        },
        ExprView::Unary { operator, expr } => ExprView::Unary {
            operator,
            expr: Box::new(without_ids(*expr)),
        },
        ExprView::Grouping { expr } => ExprView::Grouping { expr: Box::new(without_ids(*expr)) },
        ExprView::Literal { value } => ExprView::Literal {
            value: match value {
                LiteralView::Identifier { name, .. } => LiteralView::Identifier { name, id: 0 },
                other => other,
            },
        },
        ExprView::Assignment { name, expression, .. } => ExprView::Assignment {
            name,
            expression: Box::new(without_ids(*expression)),
            id: 0,
        },
        ExprView::Call { function, arguments } => ExprView::Call {
            function: Box::new(without_ids(*function)),
            arguments: exprs_without_ids(arguments),
        },
    }
}

/// The expressions, with 0 for each of their identities.
pub open spec fn exprs_without_ids(exprs: Seq<ExprView>) -> Seq<ExprView>
    decreases exprs, 1nat,
{
    if exprs.len() == 0 {
        Seq::empty()
    } else {
        exprs_without_ids(exprs.drop_last()).push(without_ids(exprs.last()))
    }
}

/// The statement, with 0 for each of its identities.
pub open spec fn stmt_without_ids(stmt: StmtView) -> StmtView
    decreases stmt, 0nat,
{
    match stmt {
        StmtView::Expression { expression } => StmtView::Expression {
            expression: without_ids(expression),
        },
        StmtView::Declaration { name, initializer } => StmtView::Declaration {
            name,
            initializer: without_ids(initializer),
        },
        StmtView::FunDeclaration { name, parameters, body } => StmtView::FunDeclaration {
            name,
            parameters,
            body: stmts_without_ids(body),
        },
        StmtView::Block { statements } => StmtView::Block {
            statements: stmts_without_ids(statements),
        },
        StmtView::While { condition, statement } => StmtView::While {
            condition: without_ids(condition),
            statement: Box::new(stmt_without_ids(*statement)),
        },
        StmtView::If { condition, true_case, false_case } => StmtView::If {
            condition: without_ids(condition),
            true_case: Box::new(stmt_without_ids(*true_case)),
            false_case: match false_case {
                Some(stmt) => Some(Box::new(stmt_without_ids(*stmt))),
                None => None,
            },
        },
    }
}

/// The statements, with 0 for each of their identities.
pub open spec fn stmts_without_ids(stmts: Seq<StmtView>) -> Seq<StmtView>
    decreases stmts, 1nat,
{
    if stmts.len() == 0 {
        Seq::empty()
    } else {
        stmts_without_ids(stmts.drop_last()).push(stmt_without_ids(stmts.last()))
    }
}

/// Two readings of an expression are the same but for the identities.
pub open spec fn alike(one: Parsed<ExprView>, other: Parsed<ExprView>) -> bool {
    &&& one.consumed == other.consumed
    &&& one.ids == other.ids
    &&& match (one.result, other.result) {
        (Ok(first), Ok(second)) => without_ids(first) == without_ids(second),
        (Err(first), Err(second)) => first == second,
        _ => false,
    }
}

/// Two readings of a list of expressions are the same but for the
/// identities.
pub open spec fn alike_list(one: Parsed<Seq<ExprView>>, other: Parsed<Seq<ExprView>>) -> bool {
    &&& one.consumed == other.consumed
    &&& one.ids == other.ids
    &&& match (one.result, other.result) {
        (Ok(first), Ok(second)) => exprs_without_ids(first) == exprs_without_ids(second),
        (Err(first), Err(second)) => first == second,
        _ => false,
    }
}

/// Two readings of a statement are the same but for the identities.
pub open spec fn alike_stmt(one: ParsedStmt<StmtView>, other: ParsedStmt<StmtView>) -> bool {
    &&& one.consumed == other.consumed
    &&& one.ids == other.ids
    &&& one.errors == other.errors
    &&& match (one.result, other.result) {
        (Ok(first), Ok(second)) => stmt_without_ids(first) == stmt_without_ids(second),
        (Err(first), Err(second)) => first == second,
        _ => false,
    }
}

/// Two readings of a list of statements are the same but for the
/// identities.
pub open spec fn alike_stmts(
    one: ParsedStmt<Seq<StmtView>>,
    other: ParsedStmt<Seq<StmtView>>,
) -> bool {
    &&& one.consumed == other.consumed
    &&& one.ids == other.ids
    &&& one.errors == other.errors
    &&& match (one.result, other.result) {
        (Ok(first), Ok(second)) => stmts_without_ids(first) == stmts_without_ids(second),
        (Err(first), Err(second)) => first == second,
        _ => false,
    }
}

/// Two readings of a declaration are the same but for the identities.
pub open spec fn alike_declared(
    one: ParsedStmt<Option<StmtView>>,
    other: ParsedStmt<Option<StmtView>>,
) -> bool {
    &&& one.consumed == other.consumed
    &&& one.ids == other.ids
    &&& one.errors == other.errors
    &&& match (one.result, other.result) {
        (Ok(Some(first)), Ok(Some(second))) => stmt_without_ids(first) == stmt_without_ids(second),
        (Ok(None), Ok(None)) => true,
        (Err(first), Err(second)) => first == second,
        _ => false,
    }
}

/// Expressions with one more behind them, without identities.
pub proof fn lemma_exprs_without_ids_push(exprs: Seq<ExprView>, expr: ExprView)
    ensures
        exprs_without_ids(exprs.push(expr)) == exprs_without_ids(exprs).push(without_ids(expr)),
{
    assert(exprs.push(expr).drop_last() =~= exprs);
}

/// Statements with one more behind them, without identities.
pub proof fn lemma_stmts_without_ids_push(stmts: Seq<StmtView>, stmt: StmtView)
    ensures
        stmts_without_ids(stmts.push(stmt)) == stmts_without_ids(stmts).push(
            stmt_without_ids(stmt),
        ),
{
    assert(stmts.push(stmt).drop_last() =~= stmts);
}

/// Two readings of the rule `atom` from one position are the same but for
/// the identities.
pub proof fn lemma_atom_alike(tokens: Seq<TokenView>, pos: nat, one: nat, other: nat)
    ensures
        alike(atom(tokens, pos, one), atom(tokens, pos, other)),
    decreases left(tokens, pos), 0nat, 1nat,
{
    reveal(expression);
    if kind_at(tokens, pos) is LeftParen {
        lemma_expression_alike(tokens, pos + 1, one, other);
    }
}

/// Two readings of the rule `primary` from one position are the same but for
/// the identities.
pub proof fn lemma_primary_alike(tokens: Seq<TokenView>, pos: nat, one: nat, other: nat)
    ensures
        alike(primary(tokens, pos, one), primary(tokens, pos, other)),
    decreases left(tokens, pos), 1nat, 0nat,
{
    lemma_atom_alike(tokens, pos, one, other);
    let first = atom(tokens, pos, one);
    let second = atom(tokens, pos, other);
    if let (Ok(a), Ok(b)) = (first.result, second.result) {
        lemma_calls_alike(tokens, a, b, pos + first.consumed, one + first.ids, other + second.ids);
    }
}

/// Two readings of the rule `calls` from one position are the same but for
/// the identities.
#[verifier::rlimit(30)]
pub proof fn lemma_calls_alike(
    tokens: Seq<TokenView>,
    callee: ExprView,
    twin: ExprView,
    pos: nat,
    one: nat,
    other: nat,
)
    requires
        without_ids(callee) == without_ids(twin),
    ensures
        alike(calls(tokens, callee, pos, one), calls(tokens, twin, pos, other)),
    decreases left(tokens, pos), 0nat, 0nat,
{
    if kind_at(tokens, pos) is LeftParen {
        lemma_finish_call_alike(tokens, pos + 1, one, other);
        let first = finish_call(tokens, pos + 1, one);
        let second = finish_call(tokens, pos + 1, other);
        if let (Ok(a), Ok(b)) = (first.result, second.result) {
            lemma_calls_alike(
                tokens,
                ExprView::Call { function: Box::new(callee), arguments: a },
                ExprView::Call { function: Box::new(twin), arguments: b },
                pos + 1 + first.consumed,
                one + first.ids,
                other + second.ids,
            );
        }
    }
}

/// Two readings of the rule `finish_call` from one position are the same but for
/// the identities.
pub proof fn lemma_finish_call_alike(tokens: Seq<TokenView>, pos: nat, one: nat, other: nat)
    ensures
        alike_list(finish_call(tokens, pos, one), finish_call(tokens, pos, other)),
    decreases left(tokens, pos), 12nat, 0nat,
{
    if !(kind_at(tokens, pos) is RightParen) {
        lemma_arguments_alike(tokens, Seq::empty(), Seq::empty(), pos, one, other);
    }
}

/// Two readings of the rule `arguments` from one position are the same but for
/// the identities.
pub proof fn lemma_arguments_alike(
    tokens: Seq<TokenView>,
    before: Seq<ExprView>,
    twins: Seq<ExprView>,
    pos: nat,
    one: nat,
    other: nat,
)
    requires
        exprs_without_ids(before) == exprs_without_ids(twins),
    ensures
        alike_list(arguments(tokens, before, pos, one), arguments(tokens, twins, pos, other)),
    decreases left(tokens, pos), 11nat, 0nat,
{
    lemma_assignment_alike(tokens, pos, one, other);
    let first = assignment(tokens, pos, one);
    let second = assignment(tokens, pos, other);
    if let (Ok(a), Ok(b)) = (first.result, second.result) {
        let next = pos + first.consumed;
        lemma_exprs_without_ids_push(before, a);
        lemma_exprs_without_ids_push(twins, b);
        if kind_at(tokens, next) is Comma {
            lemma_arguments_alike(
                tokens,
                before.push(a),
                twins.push(b),
                next + 1,
                one + first.ids,
                other + second.ids,
            );
        }
    }
}

/// Two readings of the rule `unary` from one position are the same but for
/// the identities.
pub proof fn lemma_unary_alike(tokens: Seq<TokenView>, pos: nat, one: nat, other: nat)
    ensures
        alike(unary(tokens, pos, one), unary(tokens, pos, other)),
    decreases left(tokens, pos), 2nat, 0nat,
{
    if kind_at(tokens, pos) is Bang || kind_at(tokens, pos) is Minus {
        lemma_unary_alike(tokens, pos + 1, one, other);
    } else {
        lemma_primary_alike(tokens, pos, one, other);
    }
}

/// Two readings of the rule `operand` from one position are the same but for
/// the identities.
pub proof fn lemma_operand_alike(
    tokens: Seq<TokenView>,
    level: Level,
    pos: nat,
    one: nat,
    other: nat,
)
    ensures
        alike(operand(tokens, level, pos, one), operand(tokens, level, pos, other)),
    decreases left(tokens, pos), level.rank(), 0nat,
{
    match level {
        Level::Comma => lemma_assignment_alike(tokens, pos, one, other),
        Level::Or => lemma_binary_alike(tokens, Level::And, pos, one, other),
        Level::And => lemma_ternary_alike(tokens, pos, one, other),
        Level::Equality => lemma_binary_alike(tokens, Level::Comparison, pos, one, other),
        Level::Comparison => lemma_binary_alike(tokens, Level::Term, pos, one, other),
        Level::Term => lemma_binary_alike(tokens, Level::Factor, pos, one, other),
        Level::Factor => lemma_unary_alike(tokens, pos, one, other),
    }
}

/// Two readings of the rule `binary` from one position are the same but for
/// the identities.
pub proof fn lemma_binary_alike(
    tokens: Seq<TokenView>,
    level: Level,
    pos: nat,
    one: nat,
    other: nat,
)
    ensures
        alike(binary(tokens, level, pos, one), binary(tokens, level, pos, other)),
    decreases left(tokens, pos), level.rank(), 1nat,
{
    lemma_operand_alike(tokens, level, pos, one, other);
    let first = operand(tokens, level, pos, one);
    let second = operand(tokens, level, pos, other);
    if let (Ok(a), Ok(b)) = (first.result, second.result) {
        lemma_binary_rest_alike(
            tokens,
            level,
            a,
            b,
            pos + first.consumed,
            one + first.ids,
            other + second.ids,
        );
    }
}

/// Two readings of the rule `binary_rest` from one position are the same but for
/// the identities.
pub proof fn lemma_binary_rest_alike(
    tokens: Seq<TokenView>,
    level: Level,
    lhs: ExprView,
    twin: ExprView,
    pos: nat,
    one: nat,
    other: nat,
)
    requires
        without_ids(lhs) == without_ids(twin),
    ensures
        alike(
            binary_rest(tokens, level, lhs, pos, one),
            binary_rest(tokens, level, twin, pos, other),
        ),
    decreases left(tokens, pos), 0nat, 0nat,
{
    if let Some(operator) = level.operator(kind_at(tokens, pos)) {
        lemma_operand_alike(tokens, level, pos + 1, one, other);
        let first = operand(tokens, level, pos + 1, one);
        let second = operand(tokens, level, pos + 1, other);
        if let (Ok(a), Ok(b)) = (first.result, second.result) {
            lemma_binary_rest_alike(
                tokens,
                level,
                binary_expr(operator, lhs, a),
                binary_expr(operator, twin, b),
                pos + 1 + first.consumed,
                one + first.ids,
                other + second.ids,
            );
        }
    }
}

/// Two readings of the rule `ternary` from one position are the same but for
/// the identities.
pub proof fn lemma_ternary_alike(tokens: Seq<TokenView>, pos: nat, one: nat, other: nat)
    ensures
        alike(ternary(tokens, pos, one), ternary(tokens, pos, other)),
    decreases left(tokens, pos), 7nat, 0nat,
{
    lemma_binary_alike(tokens, Level::Equality, pos, one, other);
    let first = binary(tokens, Level::Equality, pos, one);
    let twin = binary(tokens, Level::Equality, pos, other);
    if first.result is Ok {
        let question = pos + first.consumed;
        if kind_at(tokens, question) is Question {
            lemma_binary_alike(
                tokens,
                Level::Equality,
                question + 1,
                one + first.ids,
                other + twin.ids,
            );
            let second = binary(tokens, Level::Equality, question + 1, one + first.ids);
            if second.result is Ok {
                let colon = question + 1 + second.consumed;
                let used = first.ids + second.ids;
                if kind_at(tokens, colon) is Colon {
                    lemma_ternary_alike(tokens, colon + 1, one + used, other + used);
                }
            }
        }
    }
}

/// Two readings of the rule `assignment` from one position are the same but for
/// the identities.
pub proof fn lemma_assignment_alike(tokens: Seq<TokenView>, pos: nat, one: nat, other: nat)
    ensures
        alike(assignment(tokens, pos, one), assignment(tokens, pos, other)),
    decreases left(tokens, pos), 10nat, 0nat,
{
    lemma_binary_alike(tokens, Level::Or, pos, one, other);
    let target = binary(tokens, Level::Or, pos, one);
    let twin = binary(tokens, Level::Or, pos, other);
    if target.result is Ok {
        let equal = pos + target.consumed;
        if kind_at(tokens, equal) is Eqal {
            lemma_assignment_alike(tokens, equal + 1, one + target.ids, other + twin.ids);
        }
    }
}

/// Two readings of the rule `expression` from one position are the same but for
/// the identities.
pub proof fn lemma_expression_alike(tokens: Seq<TokenView>, pos: nat, one: nat, other: nat)
    ensures
        alike(expression(tokens, pos, one), expression(tokens, pos, other)),
    decreases left(tokens, pos), 12nat, 0nat,
{
    reveal(expression);
    lemma_binary_alike(tokens, Level::Comma, pos, one, other);
}

/// Two readings of the rule `expr_stmt` from one position are the same but for
/// the identities.
pub proof fn lemma_expr_stmt_alike(tokens: Seq<TokenView>, pos: nat, one: nat, other: nat)
    ensures
        alike_stmt(expr_stmt(tokens, pos, one), expr_stmt(tokens, pos, other)),
{
    reveal(expr_stmt);
    lemma_expression_alike(tokens, pos, one, other);
}

/// Two readings of the rule `variable_declaration` from one position are the same but for
/// the identities.
pub proof fn lemma_variable_declaration_alike(
    tokens: Seq<TokenView>,
    pos: nat,
    one: nat,
    other: nat,
)
    ensures
        alike_stmt(
            variable_declaration(tokens, pos, one),
            variable_declaration(tokens, pos, other),
        ),
{
    reveal(variable_declaration);
    if kind_at(tokens, pos) is Identifier && kind_at(tokens, pos + 1) is Eqal {
        lemma_expression_alike(tokens, pos + 2, one, other);
    }
}

/// Two readings of the rule `declaration` from one position are the same but for
/// the identities.
pub proof fn lemma_declaration_alike(tokens: Seq<TokenView>, pos: nat, one: nat, other: nat)
    ensures
        alike_declared(declaration(tokens, pos, one), declaration(tokens, pos, other)),
    decreases left(tokens, pos), 2nat,
{
    reveal(declaration);
    reveal(function_declaration);
    reveal(statement);
    if kind_at(tokens, pos) is Var {
        lemma_variable_declaration_alike(tokens, pos + 1, one, other);
    } else if kind_at(tokens, pos) is Fun {
        lemma_function_declaration_alike(tokens, pos + 1, one, other);
    } else {
        lemma_statement_alike(tokens, pos, one, other);
    }
}

/// Two readings of the rule `function_declaration` from one position are the same but for
/// the identities.
pub proof fn lemma_function_declaration_alike(
    tokens: Seq<TokenView>,
    pos: nat,
    one: nat,
    other: nat,
)
    ensures
        alike_stmt(
            function_declaration(tokens, pos, one),
            function_declaration(tokens, pos, other),
        ),
    decreases left(tokens, pos), 0nat,
{
    reveal(function_declaration);
    reveal(block);
    if kind_at(tokens, pos) is Identifier && kind_at(tokens, pos + 1) is LeftParen {
        let list = crate::tree_walking::grammar::parameter_list(tokens, pos + 2);
        let brace = pos + 2 + list.consumed;
        if list.result is Ok && kind_at(tokens, brace) is LeftBrace {
            lemma_block_alike(tokens, brace + 1, one, other);
        }
    }
}

/// Two readings of the rule `statement` from one position are the same but for
/// the identities.
pub proof fn lemma_statement_alike(tokens: Seq<TokenView>, pos: nat, one: nat, other: nat)
    ensures
        alike_stmt(statement(tokens, pos, one), statement(tokens, pos, other)),
    decreases left(tokens, pos), 1nat,
{
    reveal(statement);
    reveal(block);
    reveal(while_);
    reveal(if_);
    if kind_at(tokens, pos) is LeftBrace {
        lemma_block_alike(tokens, pos + 1, one, other);
    } else if kind_at(tokens, pos) is While {
        lemma_while_alike(tokens, pos + 1, one, other);
    } else if kind_at(tokens, pos) is If {
        lemma_if_alike(tokens, pos + 1, one, other);
    } else {
        lemma_expr_stmt_alike(tokens, pos, one, other);
    }
}

/// Two readings of the rule `block` from one position are the same but for
/// the identities.
pub proof fn lemma_block_alike(tokens: Seq<TokenView>, pos: nat, one: nat, other: nat)
    ensures
        alike_stmts(block(tokens, pos, one), block(tokens, pos, other)),
    decreases left(tokens, pos), 5nat,
{
    reveal(block);
    reveal(block_rest);
    lemma_block_rest_alike(tokens, Seq::empty(), Seq::empty(), pos, one, other);
}

/// Two readings of the rule `block_rest` from one position are the same but for
/// the identities.
pub proof fn lemma_block_rest_alike(
    tokens: Seq<TokenView>,
    before: Seq<StmtView>,
    twins: Seq<StmtView>,
    pos: nat,
    one: nat,
    other: nat,
)
    requires
        stmts_without_ids(before) == stmts_without_ids(twins),
    ensures
        alike_stmts(
            block_rest(tokens, before, pos, one),
            block_rest(tokens, twins, pos, other),
        ),
    decreases left(tokens, pos), 4nat,
{
    reveal(block_rest);
    reveal(declaration);
    if !(kind_at(tokens, pos) is RightBrace) && !at_end(tokens, pos) {
        lemma_declaration_alike(tokens, pos, one, other);
        let first = declaration(tokens, pos, one);
        let second = declaration(tokens, pos, other);
        if first.consumed > 0 {
            if let (Ok(Some(a)), Ok(Some(b))) = (first.result, second.result) {
                lemma_stmts_without_ids_push(before, a);
                lemma_stmts_without_ids_push(twins, b);
            }
            lemma_block_rest_alike(
                tokens,
                with_declared(before, first),
                with_declared(twins, second),
                pos + first.consumed,
                one + first.ids,
                other + second.ids,
            );
        }
    }
}

/// Two readings of the rule `while` from one position are the same but for
/// the identities.
pub proof fn lemma_while_alike(tokens: Seq<TokenView>, pos: nat, one: nat, other: nat)
    ensures
        alike_stmt(while_(tokens, pos, one), while_(tokens, pos, other)),
    decreases left(tokens, pos), 0nat,
{
    reveal(while_);
    reveal(block);
    reveal_with_fuel(stmt_without_ids, 3);
    if kind_at(tokens, pos) is LeftParen {
        lemma_expression_alike(tokens, pos + 1, one, other);
        let read = expression(tokens, pos + 1, one);
        let twin = expression(tokens, pos + 1, other);
        let close = pos + 1 + read.consumed;
        if read.result is Ok && kind_at(tokens, close) is RightParen && kind_at(tokens, close + 1)
            is LeftBrace {
            lemma_block_alike(tokens, close + 2, one + read.ids, other + twin.ids);
        }
    }
}

/// Two readings of the rule `if` from one position are the same but for
/// the identities.
pub proof fn lemma_if_alike(tokens: Seq<TokenView>, pos: nat, one: nat, other: nat)
    ensures
        alike_stmt(if_(tokens, pos, one), if_(tokens, pos, other)),
    decreases left(tokens, pos), 1nat,
{
    reveal(if_);
    reveal(block);
    reveal(else_);
    if kind_at(tokens, pos) is LeftParen {
        lemma_expression_alike(tokens, pos + 1, one, other);
        let read = expression(tokens, pos + 1, one);
        let twin = expression(tokens, pos + 1, other);
        let close = pos + 1 + read.consumed;
        if let (Ok(a), Ok(b)) = (read.result, twin.result) {
            if kind_at(tokens, close) is RightParen && kind_at(tokens, close + 1) is LeftBrace {
                lemma_block_alike(tokens, close + 2, one + read.ids, other + twin.ids);
                let first = block(tokens, close + 2, one + read.ids);
                let second = block(tokens, close + 2, other + twin.ids);
                if let (Ok(c), Ok(d)) = (first.result, second.result) {
                    lemma_else_alike(
                        tokens,
                        a,
                        b,
                        c,
                        d,
                        close + 2 + first.consumed,
                        one + read.ids + first.ids,
                        other + twin.ids + second.ids,
                    );
                }
            }
        }
    }
}

/// Two readings of the rule `else` from one position are the same but for
/// the identities.
pub proof fn lemma_else_alike(
    tokens: Seq<TokenView>,
    condition: ExprView,
    condition_twin: ExprView,
    true_case: Seq<StmtView>,
    true_twin: Seq<StmtView>,
    pos: nat,
    one: nat,
    other: nat,
)
    requires
        without_ids(condition) == without_ids(condition_twin),
        stmts_without_ids(true_case) == stmts_without_ids(true_twin),
    ensures
        alike_stmt(
            else_(tokens, condition, true_case, pos, one),
            else_(tokens, condition_twin, true_twin, pos, other),
        ),
    decreases left(tokens, pos), 0nat,
{
    reveal(else_);
    reveal(block);
    reveal_with_fuel(stmt_without_ids, 3);
    if kind_at(tokens, pos) is Else && kind_at(tokens, pos + 1) is LeftBrace {
        lemma_block_alike(tokens, pos + 2, one, other);
    }
}

/// Two readings of the rule `program_rest` from one position are the same but for
/// the identities.
pub proof fn lemma_program_rest_alike(
    tokens: Seq<TokenView>,
    before: Seq<StmtView>,
    twins: Seq<StmtView>,
    pos: nat,
    one: nat,
    other: nat,
)
    requires
        stmts_without_ids(before) == stmts_without_ids(twins),
    ensures
        alike_stmts(
            program_rest(tokens, before, pos, one),
            program_rest(tokens, twins, pos, other),
        ),
    decreases left(tokens, pos),
{
    reveal(program_rest);
    if !at_end(tokens, pos) {
        lemma_declaration_alike(tokens, pos, one, other);
        lemma_declaration_reads(tokens, pos, one);
        lemma_declaration_reads(tokens, pos, other);
        let first = declaration(tokens, pos, one);
        let second = declaration(tokens, pos, other);
        if let (Ok(Some(a)), Ok(Some(b))) = (first.result, second.result) {
            lemma_stmts_without_ids_push(before, a);
            lemma_stmts_without_ids_push(twins, b);
        }
        lemma_program_rest_alike(
            tokens,
            with_declared(before, first),
            with_declared(twins, second),
            pos + first.consumed,
            one + first.ids,
            other + second.ids,
        );
    }
}

/// Parsing the same tokens twice gives the same program but for the
/// identities, whatever the first identity is that each parse hands out:
/// the same statements once the identities are taken out, the same errors,
/// and as many identities.
pub proof fn parsing_ignores_the_first_identity(tokens: Seq<TokenView>, one: nat, other: nat)
    ensures
        alike_stmts(
            program_rest(tokens, Seq::empty(), 0, one),
            program_rest(tokens, Seq::empty(), 0, other),
        ),
{
    lemma_program_rest_alike(tokens, Seq::empty(), Seq::empty(), 0, one, other);
}

} // verus!
