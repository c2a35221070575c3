//! The syntax tree of the tree-walking branch, and its mathematical model.

use vstd::prelude::*;

verus! {

#[derive(Debug, Clone, Copy, PartialEq, Eq, Structural)]
pub enum BinaryOperator {
    EqualEqual,
    BangEqual,
    Plus,
    Minus,
    Slash,
    Star,
    Greater,
    GreaterEqual,
    Less,
    LessEqual,
    Comma,
    Or,
    And,
}

#[derive(Debug, Clone, Copy, PartialEq, Eq, Structural)]
pub enum UnaryOperator {
    Minus,
    Bang,
}

#[derive(Debug, Clone, PartialEq)]
pub enum Literal {
    /// A number, as the digits that were written.
    Number { lexeme: String },
    String { value: String },
    True,
    False,
    Nil,
    /// A use of a variable; `id` tells this use from every other in the program.
    Identifier { name: String, id: usize },
}

#[allow(inconsistent_fields)]
#[derive(Debug, PartialEq)]
pub enum Expr {
    Ternary { conditional: Box<Expr>, true_case: Box<Expr>, false_case: Box<Expr> },
    Binary { operator: BinaryOperator, left: Box<Expr>, right: Box<Expr> },
    Unary { operator: UnaryOperator, expr: Box<Expr> },
    Grouping { expr: Box<Expr> },
    Literal { value: Literal },
    /// An assignment; `id` tells it from every other in the program.
    Assignment { name: String, expression: Box<Expr>, id: usize },
    Call { function: Box<Expr>, arguments: Vec<Expr> },
}

#[derive(Debug, PartialEq)]
pub enum Stmt {
    Expression { expression: Box<Expr> },
    Declaration { name: String, initializer: Box<Expr> },
    FunDeclaration { name: String, parameters: Vec<String>, body: Vec<Stmt> },
    Block { statements: Vec<Stmt> },
    While { condition: Box<Expr>, statement: Box<Stmt> },
    If { condition: Box<Expr>, true_case: Box<Stmt>, false_case: Option<Box<Stmt>> },
}

/// The mathematical model of a [`Literal`].
pub enum LiteralView {
    Number { lexeme: Seq<char> },
    String { value: Seq<char> },
    True,
    False,
    Nil,
    Identifier { name: Seq<char>, id: nat },
}

/// The mathematical model of an [`Expr`].
#[allow(inconsistent_fields)]
pub enum ExprView {
    Ternary { conditional: Box<ExprView>, true_case: Box<ExprView>, false_case: Box<ExprView> },
    Binary { operator: BinaryOperator, left: Box<ExprView>, right: Box<ExprView> },
    Unary { operator: UnaryOperator, expr: Box<ExprView> },
    Grouping { expr: Box<ExprView> },
    Literal { value: LiteralView },
    Assignment { name: Seq<char>, expression: Box<ExprView>, id: nat },
    Call { function: Box<ExprView>, arguments: Seq<ExprView> },
}

/// The mathematical model of a [`Stmt`].
pub enum StmtView {
    Expression { expression: ExprView },
    Declaration { name: Seq<char>, initializer: ExprView },
    FunDeclaration { name: Seq<char>, parameters: Seq<Seq<char>>, body: Seq<StmtView> },
    Block { statements: Seq<StmtView> },
    While { condition: ExprView, statement: Box<StmtView> },
    If { condition: ExprView, true_case: Box<StmtView>, false_case: Option<Box<StmtView>> },
}

impl View for Literal {
    type V = LiteralView;

    open spec fn view(&self) -> LiteralView {
        match self {
            Literal::Number { lexeme } => LiteralView::Number { lexeme: lexeme@ },
            Literal::String { value } => LiteralView::String { value: value@ },
            Literal::True => LiteralView::True,
            Literal::False => LiteralView::False,
            Literal::Nil => LiteralView::Nil,
            Literal::Identifier { name, id } => LiteralView::Identifier {
                name: name@,
                id: *id as nat,
            },
        }
    }
}

/// The models of the expressions of `exprs`, in order.
pub open spec fn expr_views(exprs: Seq<Expr>) -> Seq<ExprView>
    decreases exprs,
{
    if exprs.len() == 0 {
        Seq::empty()
    } else {
        expr_views(exprs.drop_last()).push(expr_view(exprs.last()))
    }
}

/// The model of an expression.
pub open spec fn expr_view(expr: Expr) -> ExprView
    decreases expr,
{
    match expr {
        Expr::Ternary { conditional, true_case, false_case } => ExprView::Ternary {
            conditional: Box::new(expr_view(*conditional)),
            true_case: Box::new(expr_view(*true_case)),
            false_case: Box::new(expr_view(*false_case)),
        },
        Expr::Binary { operator, left, right } => ExprView::Binary {
            operator,
            left: Box::new(expr_view(*left)),
            right: Box::new(expr_view(*right)),
        },
        Expr::Unary { operator, expr } => ExprView::Unary {
            operator,
            expr: Box::new(expr_view(*expr)),
        },
        Expr::Grouping { expr } => ExprView::Grouping { expr: Box::new(expr_view(*expr)) },
        Expr::Literal { value } => ExprView::Literal { value: value@ },
        Expr::Assignment { name, expression, id } => ExprView::Assignment {
            name: name@,
            expression: Box::new(expr_view(*expression)),
            id: id as nat,
        },
        Expr::Call { function, arguments } => ExprView::Call {
            function: Box::new(expr_view(*function)),
            arguments: expr_views(arguments@),
        },
    }
}

impl View for Expr {
    type V = ExprView;

    open spec fn view(&self) -> ExprView {
        expr_view(*self)
    }
}

/// The models of the statements of `stmts`, in order.
pub open spec fn stmt_views(stmts: Seq<Stmt>) -> Seq<StmtView>
    decreases stmts,
{
    if stmts.len() == 0 {
        Seq::empty()
    } else {
        stmt_views(stmts.drop_last()).push(stmt_view(stmts.last()))
    }
}

/// The models of the strings of `names`, in order.
pub open spec fn name_views(names: Seq<String>) -> Seq<Seq<char>> {
    Seq::new(names.len(), |i: int| names[i]@)
}

/// The model of a statement.
pub open spec fn stmt_view(stmt: Stmt) -> StmtView
    decreases stmt,
{
    match stmt {
        Stmt::Expression { expression } => StmtView::Expression { expression: expression@ },
        Stmt::Declaration { name, initializer } => StmtView::Declaration {
            name: name@,
            initializer: initializer@,
        },
        Stmt::FunDeclaration { name, parameters, body } => StmtView::FunDeclaration {
            name: name@,
            parameters: name_views(parameters@),
            body: stmt_views(body@),
        },
        Stmt::Block { statements } => StmtView::Block { statements: stmt_views(statements@) },
        Stmt::While { condition, statement } => StmtView::While {
            condition: condition@,
            statement: Box::new(stmt_view(*statement)),
        },
        Stmt::If { condition, true_case, false_case } => StmtView::If {
            condition: condition@,
            true_case: Box::new(stmt_view(*true_case)),
            false_case: match false_case {
                Some(stmt) => Some(Box::new(stmt_view(*stmt))),
                None => None,
            },
        },
    }
}

impl View for Stmt {
    type V = StmtView;

    open spec fn view(&self) -> StmtView {
        stmt_view(*self)
    }
}

/// The model of a sequence of expressions is taken item by item.
pub proof fn lemma_expr_views(exprs: Seq<Expr>)
    ensures
        expr_views(exprs).len() == exprs.len(),
        forall|i: int| 0 <= i < exprs.len() ==> (#[trigger] expr_views(exprs)[i]) == exprs[i]@,
    decreases exprs.len(),
{
    if exprs.len() > 0 {
        lemma_expr_views(exprs.drop_last());
    }
}

/// The model of a sequence of statements is taken item by item.
pub proof fn lemma_stmt_views(stmts: Seq<Stmt>)
    ensures
        stmt_views(stmts).len() == stmts.len(),
        forall|i: int| 0 <= i < stmts.len() ==> (#[trigger] stmt_views(stmts)[i]) == stmts[i]@,
    decreases stmts.len(),
{
    if stmts.len() > 0 {
        lemma_stmt_views(stmts.drop_last());
    }
}

/// Appending an expression appends its model.
pub proof fn lemma_expr_views_push(exprs: Seq<Expr>, expr: Expr)
    ensures
        expr_views(exprs.push(expr)) == expr_views(exprs).push(expr@),
{
    assert(exprs.push(expr).drop_last() == exprs);
}

/// Appending a statement appends its model.
pub proof fn lemma_stmt_views_push(stmts: Seq<Stmt>, stmt: Stmt)
    ensures
        stmt_views(stmts.push(stmt)) == stmt_views(stmts).push(stmt@),
{
    assert(stmts.push(stmt).drop_last() == stmts);
}

} // verus!
