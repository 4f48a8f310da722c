//! The high-level tree: a sketch of typed nodes above the syntax tree.

use vstd::prelude::*;

verus! {

/// A type of the high-level tree.
#[derive(Clone, Copy, Debug, Default, PartialEq, Eq, PartialOrd, Ord, Hash)]
pub struct HirTy {
    pub data: (),
}

/// The types of the parameters of a function and of what it returns.
#[derive(Debug, PartialEq, Eq, PartialOrd, Ord, Hash)]
pub struct HirFunctionSignature {
    pub parameters: Vec<HirTy>,
    pub return_type: HirTy,
}

/// Nodes that can tell whether they are constant.
pub trait ConstantEvaluable {
    fn is_constant(&self) -> bool;
}

/// A typed expression.
#[derive(Clone, Copy, Debug, PartialEq, Eq, PartialOrd, Ord, Hash)]
pub struct HirExpression {
    pub data: (),
    pub ty: HirTy,
}

/// The statements that structure control flow.
#[derive(Clone, Copy, Debug, PartialEq, Eq, PartialOrd, Ord, Hash)]
pub enum HirStatementKind {
    IfStatement,
    Loop,
}

/// What a node of the high-level tree is.
#[derive(Clone, Copy, Debug, PartialEq, Eq, PartialOrd, Ord, Hash)]
pub enum HirNodeKind {
    Expression(HirExpression),
    Statement(HirStatementKind),
}

/// A node of the high-level tree and its children.
#[derive(Debug, PartialEq, Eq, PartialOrd, Ord, Hash)]
pub struct HirNode {
    pub children: Vec<HirNode>,
    pub kind: HirNodeKind,
}

} // verus!
