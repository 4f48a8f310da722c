//! The mathematical model of the syntax tree: what a tree holds, with
//! sequences in place of vectors and strings and without sharing.

use vstd::prelude::*;

use crate::ast::expression::{
    BinaryExpression, BinaryExpressionKind, CallExpression, Expression, FunctionExpression, IndexOp,
    ShadowExpression, TableExpression, UnaryExpression,
};
use crate::ast::statement::{StatAssign, StatBlock, StatReturn, Statement};
use crate::il::UnaryOpKind;

verus! {

/// What an expression holds.
pub enum ExprView {
    Nil,
    Boolean(bool),
    Number(Seq<char>),
    String(Seq<char>),
    GlobalSymbol(Seq<char>),
    Identifier(Seq<char>),
    BinaryOp { kind: BinaryExpressionKind, left: Box<ExprView>, right: Box<ExprView> },
    UnaryOp { kind: UnaryOpKind, value: Box<ExprView> },
    IndexOp { table: Box<ExprView>, key: Box<ExprView> },
    Call { function: Box<ExprView>, arguments: Seq<ExprView>, is_self: bool },
    Function {
        body: Seq<StmtView>,
        has_vararg: bool,
        parameters: Seq<ExprView>,
        self_arg: Option<Box<ExprView>>,
    },
    TableArray(Seq<ExprView>),
    TableMap(Seq<(ExprView, ExprView)>),
    Shadow { value: Box<ExprView>, is_shadowed: bool },
}

/// What a statement holds.
pub enum StmtView {
    Block(Seq<StmtView>),
    Expr(ExprView),
    Return(Seq<ExprView>),
    Assign { target: ExprView, value: ExprView },
}

/// What an expression holds.
pub open spec fn expr_view(e: Expression) -> ExprView
    decreases e,
{
    match e {
        Expression::Nil(_) => ExprView::Nil,
        Expression::Boolean(b) => ExprView::Boolean(b.0),
        Expression::Number(n) => ExprView::Number(n.0@),
        Expression::String(s) => ExprView::String(s.0@),
        Expression::GlobalSymbol(s) => ExprView::GlobalSymbol(s.0@),
        Expression::Identifier(s) => ExprView::Identifier(s.0@),
        Expression::BinaryOp(b) => ExprView::BinaryOp {
            kind: b.kind,
            left: Box::new(expr_view(b.left)),
            right: Box::new(expr_view(b.right)),
        },
        Expression::UnaryOp(u) => ExprView::UnaryOp { kind: u.kind, value: Box::new(expr_view(u.value)) },
        Expression::IndexOp(i) => ExprView::IndexOp {
            table: Box::new(expr_view(i.table)),
            key: Box::new(expr_view(i.key)),
        },
        Expression::Call(c) => ExprView::Call {
            function: Box::new(expr_view(c.function)),
            arguments: exprs_view(c.arguments@),
            is_self: c.is_self,
        },
        Expression::Function(f) => ExprView::Function {
            body: stmts_view(f.body.body@),
            has_vararg: f.has_vararg,
            parameters: exprs_view(f.parameters@),
            self_arg: match f.self_arg {
                Some(a) => Some(Box::new(expr_view(a))),
                None => None,
            },
        },
        Expression::Table(t) => match *t {
            TableExpression::Array(a) => ExprView::TableArray(exprs_view(a@)),
            TableExpression::HashMap(m) => ExprView::TableMap(pairs_view(m@)),
        },
        Expression::Shadow(s) => ExprView::Shadow {
            value: Box::new(expr_view(s.value)),
            is_shadowed: s.is_shadowed,
        },
    }
}

/// What a sequence of expressions holds.
pub open spec fn exprs_view(es: Seq<Expression>) -> Seq<ExprView>
    decreases es,
{
    Seq::new(
        es.len(),
        |i: int|
            if 0 <= i < es.len() {
                expr_view(es[i])
            } else {
                ExprView::Nil
            },
    )
}

/// What a sequence of pairs of expressions holds.
pub open spec fn pairs_view(ps: Seq<(Expression, Expression)>) -> Seq<(ExprView, ExprView)>
    decreases ps,
{
    Seq::new(
        ps.len(),
        |i: int|
            if 0 <= i < ps.len() {
                (expr_view(ps[i].0), expr_view(ps[i].1))
            } else {
                (ExprView::Nil, ExprView::Nil)
            },
    )
}

/// What a statement holds.
pub open spec fn stmt_view(s: Statement) -> StmtView
    decreases s,
{
    match s {
        Statement::StatBlock(b) => StmtView::Block(stmts_view(b.body@)),
        Statement::StatExpr(e) => StmtView::Expr(expr_view(e.value)),
        Statement::StatReturn(r) => StmtView::Return(exprs_view(r.results@)),
        Statement::StatAssign(a) => StmtView::Assign {
            target: expr_view(a.target),
            value: expr_view(a.value),
        },
    }
}

/// What a sequence of statements holds.
pub open spec fn stmts_view(ss: Seq<Statement>) -> Seq<StmtView>
    decreases ss,
{
    Seq::new(
        ss.len(),
        |i: int|
            if 0 <= i < ss.len() {
                stmt_view(ss[i])
            } else {
                StmtView::Block(Seq::empty())
            },
    )
}

impl View for BinaryExpression {
    type V = ExprView;

    open spec fn view(&self) -> ExprView {
        ExprView::BinaryOp {
            kind: self.kind,
            left: Box::new(expr_view(self.left)),
            right: Box::new(expr_view(self.right)),
        }
    }
}

impl View for UnaryExpression {
    type V = ExprView;

    open spec fn view(&self) -> ExprView {
        ExprView::UnaryOp { kind: self.kind, value: Box::new(expr_view(self.value)) }
    }
}

impl View for IndexOp {
    type V = ExprView;

    open spec fn view(&self) -> ExprView {
        ExprView::IndexOp { table: Box::new(expr_view(self.table)), key: Box::new(expr_view(self.key)) }
    }
}

impl View for CallExpression {
    type V = ExprView;

    open spec fn view(&self) -> ExprView {
        ExprView::Call {
            function: Box::new(expr_view(self.function)),
            arguments: exprs_view(self.arguments@),
            is_self: self.is_self,
        }
    }
}

impl View for FunctionExpression {
    type V = ExprView;

    open spec fn view(&self) -> ExprView {
        ExprView::Function {
            body: stmts_view(self.body.body@),
            has_vararg: self.has_vararg,
            parameters: exprs_view(self.parameters@),
            self_arg: match self.self_arg {
                Some(a) => Some(Box::new(expr_view(a))),
                None => None,
            },
        }
    }
}

impl View for TableExpression {
    type V = ExprView;

    open spec fn view(&self) -> ExprView {
        match *self {
            TableExpression::Array(a) => ExprView::TableArray(exprs_view(a@)),
            TableExpression::HashMap(m) => ExprView::TableMap(pairs_view(m@)),
        }
    }
}

impl View for ShadowExpression {
    type V = ExprView;

    open spec fn view(&self) -> ExprView {
        ExprView::Shadow { value: Box::new(expr_view(self.value)), is_shadowed: self.is_shadowed }
    }
}

impl View for StatReturn {
    type V = StmtView;

    open spec fn view(&self) -> StmtView {
        StmtView::Return(exprs_view(self.results@))
    }
}

impl View for StatAssign {
    type V = StmtView;

    open spec fn view(&self) -> StmtView {
        StmtView::Assign { target: expr_view(self.target), value: expr_view(self.value) }
    }
}

impl View for Expression {
    type V = ExprView;

    open spec fn view(&self) -> ExprView {
        expr_view(*self)
    }
}

impl View for Statement {
    type V = StmtView;

    open spec fn view(&self) -> StmtView {
        stmt_view(*self)
    }
}

impl View for StatBlock {
    type V = Seq<StmtView>;

    open spec fn view(&self) -> Seq<StmtView> {
        stmts_view(self.body@)
    }
}

} // verus!
