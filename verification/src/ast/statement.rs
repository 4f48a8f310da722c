//! Statements of the syntax tree.

use vstd::prelude::*;

use crate::ast::expression::Expression;

verus! {

/// A sequence of statements.
#[derive(Debug, PartialEq)]
pub struct StatBlock {
    pub body: Vec<Statement>,
}

impl Default for StatBlock {
    fn default() -> (r: Self)
        ensures
            r.body@ == Seq::<Statement>::empty(),
    {
        StatBlock { body: Vec::new() }
    }
}

/// An expression evaluated for its effect.
#[derive(Debug, Clone, PartialEq)]
pub struct StatExpr {
    pub value: Expression,
}

/// A return of values.
#[derive(Debug, Clone, PartialEq)]
pub struct StatReturn {
    pub results: Vec<Expression>,
}

impl Default for StatReturn {
    fn default() -> (r: Self)
        ensures
            r.results@ == Seq::<Expression>::empty(),
    {
        StatReturn { results: Vec::new() }
    }
}

/// An assignment of a value to a target.
#[derive(Debug, Clone, PartialEq)]
pub struct StatAssign {
    pub target: Expression,
    pub value: Expression,
}

/// A statement.
#[derive(Debug, PartialEq)]
pub enum Statement {
    StatBlock(Box<StatBlock>),
    StatExpr(Box<StatExpr>),
    StatReturn(Box<StatReturn>),
    StatAssign(Box<StatAssign>),
}

impl From<Expression> for Statement {
    /// The statement that evaluates the expression.
    fn from(value: Expression) -> (r: Statement) {
        value.to_statement()
    }
}

impl vstd::std_specs::convert::FromSpecImpl<Expression> for Statement {
    open spec fn obeys_from_spec() -> bool {
        true
    }

    open spec fn from_spec(value: Expression) -> Statement {
        Statement::StatExpr(Box::new(StatExpr { value }))
    }
}

} // verus!
