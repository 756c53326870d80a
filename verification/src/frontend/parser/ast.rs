//! The syntax tree that the intermediate representation is generated from.

use vstd::prelude::*;

verus! {

#[derive(Debug)]
pub struct Program {
    pub body: Vec<Statement>,
}

#[allow(inconsistent_fields)]
#[derive(Debug, PartialEq)]
pub enum Statement {
    ExprStatement(Box<Expression>),
    Declaration { names: Vec<String>, values: Vec<Expression> },
    IfStmt {
        condition: Box<Expression>,
        then_branch: Vec<Statement>,
        elif_branches: Vec<(Expression, Vec<Statement>)>,
        else_branch: Option<Vec<Statement>>,
    },
    WhileStmt { condition: Box<Expression>, body: Vec<Statement> },
    RepeatStmt { body: Vec<Statement>, condition: Box<Expression> },
    ReturnStmt { values: Vec<Expression> },
}

#[allow(inconsistent_fields)]
#[derive(Debug, PartialEq)]
pub enum Expression {
    Identifier(String),
    Literal(Literal),
    BinOp { left: Box<Expression>, operator: BinOp, right: Box<Expression> },
    UnOp { operator: UnOp, operand: Box<Expression> },
    FnCall { callee: Box<Expression>, arguments: Vec<Expression> },
    IndexOf { collection: Box<Expression>, index: Box<Expression> },
    MemberAccess { collection: Box<Expression>, member: String },
    /// The fields of a table constructor: a keyed field carries its key;
    /// a positional field gets the next index, counting from 1.
    TableCtor { fields: Vec<(Option<Expression>, Expression)> },
}

#[derive(Debug, PartialEq)]
pub enum Literal {
    /// A number, as its binary64 bit pattern.
    Number(u64),
    String(String),
    Boolean(bool),
    Function { params: Vec<String>, body: Vec<Statement>, name: Option<String> },
    Nil,
}

#[derive(Debug, Clone, Copy, PartialEq, Eq, Structural)]
pub enum BinOp {
    Add,
    Sub,
    Mul,
    Div,
    Pow,
    Concat,
    Eq,
    Neq,
    Lt,
    Gt,
    Leq,
    Geq,
    And,
    Or,
    Assign,
}

#[derive(Debug, Clone, Copy, PartialEq, Eq, Structural)]
pub enum UnOp {
    Pos,
    Neg,
    Not,
}

/// An expression as contracts see it.
#[allow(inconsistent_fields)]
pub enum ExprView {
    Identifier(Seq<char>),
    Literal(LitView),
    BinOp { left: Box<ExprView>, operator: BinOp, right: Box<ExprView> },
    UnOp { operator: UnOp, operand: Box<ExprView> },
    FnCall { callee: Box<ExprView>, arguments: Seq<ExprView> },
    IndexOf { collection: Box<ExprView>, index: Box<ExprView> },
    MemberAccess { collection: Box<ExprView>, member: Seq<char> },
    TableCtor { fields: Seq<(Option<ExprView>, ExprView)> },
}

/// A literal as contracts see it.
pub enum LitView {
    Number(u64),
    String(Seq<char>),
    Boolean(bool),
    Function { params: Seq<Seq<char>>, body: Seq<StmtView>, name: Option<Seq<char>> },
    Nil,
}

/// A statement as contracts see it.
#[allow(inconsistent_fields)]
pub enum StmtView {
    ExprStatement(Box<ExprView>),
    Declaration { names: Seq<Seq<char>>, values: Seq<ExprView> },
    IfStmt {
        condition: Box<ExprView>,
        then_branch: Seq<StmtView>,
        elif_branches: Seq<(ExprView, Seq<StmtView>)>,
        else_branch: Option<Seq<StmtView>>,
    },
    WhileStmt { condition: Box<ExprView>, body: Seq<StmtView> },
    RepeatStmt { body: Seq<StmtView>, condition: Box<ExprView> },
    ReturnStmt { values: Seq<ExprView> },
}

/// The names as contracts see them.
pub open spec fn spec_names(names: Seq<String>) -> Seq<Seq<char>> {
    names.map_values(|s: String| s@)
}

/// An expression as contracts see it.
pub open spec fn spec_expr_view(e: Expression) -> ExprView
    decreases e, 0nat,
{
    match e {
        Expression::Identifier(name) => ExprView::Identifier(name@),
        Expression::Literal(lit) => ExprView::Literal(
            match lit {
                Literal::Number(n) => LitView::Number(n),
                Literal::String(s) => LitView::String(s@),
                Literal::Boolean(b) => LitView::Boolean(b),
                Literal::Function { params, body, name } => LitView::Function {
                    params: spec_names(params@),
                    body: spec_stmt_views(body@, body@.len() as int),
                    name: match name {
                        Some(n) => Some(n@),
                        None => None,
                    },
                },
                Literal::Nil => LitView::Nil,
            },
        ),
        Expression::BinOp { left, operator, right } => ExprView::BinOp {
            left: Box::new(spec_expr_view(*left)),
            operator,
            right: Box::new(spec_expr_view(*right)),
        },
        Expression::UnOp { operator, operand } => ExprView::UnOp {
            operator,
            operand: Box::new(spec_expr_view(*operand)),
        },
        Expression::FnCall { callee, arguments } => ExprView::FnCall {
            callee: Box::new(spec_expr_view(*callee)),
            arguments: spec_expr_views(arguments@, arguments@.len() as int),
        },
        Expression::IndexOf { collection, index } => ExprView::IndexOf {
            collection: Box::new(spec_expr_view(*collection)),
            index: Box::new(spec_expr_view(*index)),
        },
        Expression::MemberAccess { collection, member } => ExprView::MemberAccess {
            collection: Box::new(spec_expr_view(*collection)),
            member: member@,
        },
        Expression::TableCtor { fields } => ExprView::TableCtor {
            fields: spec_field_views(fields@, fields@.len() as int),
        },
    }
}

/// The first `n` expressions as contracts see them.
pub open spec fn spec_expr_views(es: Seq<Expression>, n: int) -> Seq<ExprView>
    decreases es, n,
{
    if n <= 0 || n > es.len() {
        Seq::empty()
    } else {
        spec_expr_views(es, n - 1).push(spec_expr_view(es[n - 1]))
    }
}

/// The first `n` fields of a table constructor as contracts see them.
pub open spec fn spec_field_views(fs: Seq<(Option<Expression>, Expression)>, n: int) -> Seq<
    (Option<ExprView>, ExprView),
>
    decreases fs, n,
{
    if n <= 0 || n > fs.len() {
        Seq::empty()
    } else {
        spec_field_views(fs, n - 1).push(
            (
                match fs[n - 1].0 {
                    Some(k) => Some(spec_expr_view(k)),
                    None => None,
                },
                spec_expr_view(fs[n - 1].1),
            ),
        )
    }
}

/// A statement as contracts see it.
pub open spec fn spec_stmt_view(s: Statement) -> StmtView
    decreases s, 0nat,
{
    match s {
        Statement::ExprStatement(e) => StmtView::ExprStatement(Box::new(spec_expr_view(*e))),
        Statement::Declaration { names, values } => StmtView::Declaration {
            names: spec_names(names@),
            values: spec_expr_views(values@, values@.len() as int),
        },
        Statement::IfStmt { condition, then_branch, elif_branches, else_branch } => StmtView::IfStmt {
            condition: Box::new(spec_expr_view(*condition)),
            then_branch: spec_stmt_views(then_branch@, then_branch@.len() as int),
            elif_branches: spec_elif_views(elif_branches@, elif_branches@.len() as int),
            else_branch: match else_branch {
                Some(stmts) => Some(spec_stmt_views(stmts@, stmts@.len() as int)),
                None => None,
            },
        },
        Statement::WhileStmt { condition, body } => StmtView::WhileStmt {
            condition: Box::new(spec_expr_view(*condition)),
            body: spec_stmt_views(body@, body@.len() as int),
        },
        Statement::RepeatStmt { body, condition } => StmtView::RepeatStmt {
            body: spec_stmt_views(body@, body@.len() as int),
            condition: Box::new(spec_expr_view(*condition)),
        },
        Statement::ReturnStmt { values } => StmtView::ReturnStmt {
            values: spec_expr_views(values@, values@.len() as int),
        },
    }
}

/// The first `n` statements as contracts see them.
pub open spec fn spec_stmt_views(ss: Seq<Statement>, n: int) -> Seq<StmtView>
    decreases ss, n,
{
    if n <= 0 || n > ss.len() {
        Seq::empty()
    } else {
        spec_stmt_views(ss, n - 1).push(spec_stmt_view(ss[n - 1]))
    }
}

/// The first `n` `elseif` branches as contracts see them.
pub open spec fn spec_elif_views(bs: Seq<(Expression, Vec<Statement>)>, n: int) -> Seq<
    (ExprView, Seq<StmtView>),
>
    decreases bs, n,
{
    if n <= 0 || n > bs.len() {
        Seq::empty()
    } else {
        spec_elif_views(bs, n - 1).push(
            (
                spec_expr_view(bs[n - 1].0),
                spec_stmt_views(bs[n - 1].1@, bs[n - 1].1@.len() as int),
            ),
        )
    }
}

/// The views of a sequence with one more item.
pub proof fn lemma_expr_views_push(es: Seq<Expression>, e: Expression)
    ensures
        spec_expr_views(es.push(e), es.len() as int + 1) == spec_expr_views(es, es.len() as int).push(
            spec_expr_view(e),
        ),
{
    lemma_expr_views_prefix(es.push(e), es, es.len() as int);
}

/// The views of the first `n` items depend on those items only.
pub proof fn lemma_expr_views_prefix(a: Seq<Expression>, b: Seq<Expression>, n: int)
    requires
        0 <= n <= a.len(),
        n <= b.len(),
        forall|i: int| 0 <= i < n ==> a[i] == b[i],
    ensures
        spec_expr_views(a, n) == spec_expr_views(b, n),
    decreases n,
{
    if n > 0 {
        lemma_expr_views_prefix(a, b, n - 1);
    }
}

/// The views of a sequence with one more item.
pub proof fn lemma_stmt_views_push(ss: Seq<Statement>, s: Statement)
    ensures
        spec_stmt_views(ss.push(s), ss.len() as int + 1) == spec_stmt_views(ss, ss.len() as int).push(
            spec_stmt_view(s),
        ),
{
    lemma_stmt_views_prefix(ss.push(s), ss, ss.len() as int);
}

/// The views of the first `n` items depend on those items only.
pub proof fn lemma_stmt_views_prefix(a: Seq<Statement>, b: Seq<Statement>, n: int)
    requires
        0 <= n <= a.len(),
        n <= b.len(),
        forall|i: int| 0 <= i < n ==> a[i] == b[i],
    ensures
        spec_stmt_views(a, n) == spec_stmt_views(b, n),
    decreases n,
{
    if n > 0 {
        lemma_stmt_views_prefix(a, b, n - 1);
    }
}

/// The views of a sequence with one more item.
pub proof fn lemma_field_views_push(
    fs: Seq<(Option<Expression>, Expression)>,
    f: (Option<Expression>, Expression),
)
    ensures
        spec_field_views(fs.push(f), fs.len() as int + 1) == spec_field_views(fs, fs.len() as int).push(
            (
                match f.0 {
                    Some(k) => Some(spec_expr_view(k)),
                    None => None,
                },
                spec_expr_view(f.1),
            ),
        ),
{
    lemma_field_views_prefix(fs.push(f), fs, fs.len() as int);
}

/// The views of the first `n` items depend on those items only.
pub proof fn lemma_field_views_prefix(
    a: Seq<(Option<Expression>, Expression)>,
    b: Seq<(Option<Expression>, Expression)>,
    n: int,
)
    requires
        0 <= n <= a.len(),
        n <= b.len(),
        forall|i: int| 0 <= i < n ==> a[i] == b[i],
    ensures
        spec_field_views(a, n) == spec_field_views(b, n),
    decreases n,
{
    if n > 0 {
        lemma_field_views_prefix(a, b, n - 1);
    }
}

/// The views of a sequence with one more item.
pub proof fn lemma_elif_views_push(
    bs: Seq<(Expression, Vec<Statement>)>,
    b: (Expression, Vec<Statement>),
)
    ensures
        spec_elif_views(bs.push(b), bs.len() as int + 1) == spec_elif_views(bs, bs.len() as int).push(
            (spec_expr_view(b.0), spec_stmt_views(b.1@, b.1@.len() as int)),
        ),
{
    lemma_elif_views_prefix(bs.push(b), bs, bs.len() as int);
}

/// The views of the first `n` items depend on those items only.
pub proof fn lemma_elif_views_prefix(
    a: Seq<(Expression, Vec<Statement>)>,
    b: Seq<(Expression, Vec<Statement>)>,
    n: int,
)
    requires
        0 <= n <= a.len(),
        n <= b.len(),
        forall|i: int| 0 <= i < n ==> a[i] == b[i],
    ensures
        spec_elif_views(a, n) == spec_elif_views(b, n),
    decreases n,
{
    if n > 0 {
        lemma_elif_views_prefix(a, b, n - 1);
    }
}

impl View for Expression {
    type V = ExprView;

    open spec fn view(&self) -> ExprView {
        spec_expr_view(*self)
    }
}

impl View for Statement {
    type V = StmtView;

    open spec fn view(&self) -> StmtView {
        spec_stmt_view(*self)
    }
}

impl View for Program {
    type V = Seq<StmtView>;

    open spec fn view(&self) -> Seq<StmtView> {
        spec_stmt_views(self.body@, self.body@.len() as int)
    }
}

} // verus!
