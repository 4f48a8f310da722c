//! Expressions of the syntax tree and the rules for identifiers.

use vstd::prelude::*;

use std::rc::Rc;

use crate::ast::identifier::{push_signed_decimal, signed_decimal};
use crate::ast::statement::{StatBlock, StatExpr, Statement};
use crate::il::UnaryOpKind;

verus! {

/// The literal `nil`.
#[derive(Debug, Clone, PartialEq)]
pub struct Nil;

/// A numeric literal, held as the text that stands for it in source.
#[derive(Debug, Clone, PartialEq)]
pub struct Number(pub String);

impl Number {
    /// The number of a whole value.
    pub fn from_i32(i: i32) -> (r: Number)
        ensures
            r.0@ == signed_decimal(i as int),
    {
        let mut text = String::new();
        push_signed_decimal(&mut text, i);
        assert(text@ =~= signed_decimal(i as int));
        Number(text)
    }
}

/// A boolean literal.
#[derive(Debug, Clone, PartialEq)]
pub struct Boolean(pub bool);

/// A string literal, held without its quotes and escapes.
#[derive(Debug, Clone, PartialEq)]
pub struct Str(pub String);

/// The name of a global.
#[derive(Debug, Clone, PartialEq)]
pub struct GlobalSymbol(pub String);

/// The name of a local.
#[derive(Debug, Clone, PartialEq)]
pub struct Identifier(pub String);

/// The operator of a binary expression: the seven plain operators and their
/// compound-assignment counterparts.
#[derive(Debug, Clone, Copy, PartialEq, Eq, Structural)]
pub enum BinaryExpressionKind {
    Add,
    Sub,
    Mul,
    Div,
    Mod,
    Pow,
    Concat,
    AddAssign,
    SubAssign,
    MulAssign,
    DivAssign,
    ModAssign,
    PowAssign,
    ConcatAssign,
}

impl BinaryExpressionKind {
    /// Whether the operator is one of the compound-assignment forms.
    pub open spec fn is_compound(self) -> bool {
        self is AddAssign || self is SubAssign || self is MulAssign || self is DivAssign
            || self is ModAssign || self is PowAssign || self is ConcatAssign
    }

    /// The compound-assignment form of an operator; a compound form is its own.
    pub open spec fn compound(self) -> BinaryExpressionKind {
        match self {
            BinaryExpressionKind::Add => BinaryExpressionKind::AddAssign,
            BinaryExpressionKind::Sub => BinaryExpressionKind::SubAssign,
            BinaryExpressionKind::Mul => BinaryExpressionKind::MulAssign,
            BinaryExpressionKind::Div => BinaryExpressionKind::DivAssign,
            BinaryExpressionKind::Mod => BinaryExpressionKind::ModAssign,
            BinaryExpressionKind::Pow => BinaryExpressionKind::PowAssign,
            BinaryExpressionKind::Concat => BinaryExpressionKind::ConcatAssign,
            other => other,
        }
    }

    /// The operator as it is written in source.
    pub open spec fn text(self) -> Seq<char> {
        match self {
            BinaryExpressionKind::Add => "+"@,
            BinaryExpressionKind::Sub => "-"@,
            BinaryExpressionKind::Mul => "*"@,
            BinaryExpressionKind::Div => "/"@,
            BinaryExpressionKind::Mod => "%"@,
            BinaryExpressionKind::Pow => "^"@,
            BinaryExpressionKind::Concat => ".."@,
            BinaryExpressionKind::AddAssign => "+="@,
            BinaryExpressionKind::SubAssign => "-="@,
            BinaryExpressionKind::MulAssign => "*="@,
            BinaryExpressionKind::DivAssign => "/="@,
            BinaryExpressionKind::ModAssign => "%="@,
            BinaryExpressionKind::PowAssign => "^="@,
            BinaryExpressionKind::ConcatAssign => "..="@,
        }
    }

    /// The operator as it is written in source.
    pub fn symbol(&self) -> (r: &'static str)
        ensures
            r@ == self.text(),
    {
        match self {
            Self::Add => "+",
            Self::Sub => "-",
            Self::Mul => "*",
            Self::Div => "/",
            Self::Mod => "%",
            Self::Pow => "^",
            Self::Concat => "..",
            Self::AddAssign => "+=",
            Self::SubAssign => "-=",
            Self::MulAssign => "*=",
            Self::DivAssign => "/=",
            Self::ModAssign => "%=",
            Self::PowAssign => "^=",
            Self::ConcatAssign => "..=",
        }
    }

    /// Maps a plain operator to its compound-assignment form and leaves a
    /// compound form as it is.
    pub fn to_compound(&self) -> (r: Self)
        ensures
            r == self.compound(),
            r.is_compound(),
            self.is_compound() ==> r == *self,
    {
        match self {
            Self::Add => Self::AddAssign,
            Self::Sub => Self::SubAssign,
            Self::Mul => Self::MulAssign,
            Self::Div => Self::DivAssign,
            Self::Mod => Self::ModAssign,
            Self::Pow => Self::PowAssign,
            Self::Concat => Self::ConcatAssign,
            other => *other,
        }
    }
}

/// A binary operation on two expressions.
#[derive(Debug, Clone, PartialEq)]
pub struct BinaryExpression {
    pub kind: BinaryExpressionKind,
    pub left: Expression,
    pub right: Expression,
}

/// A unary operation on one expression.
#[derive(Debug, Clone, PartialEq)]
pub struct UnaryExpression {
    pub kind: UnaryOpKind,
    pub value: Expression,
}

/// A table constructor: keyed pairs in the order written, or a list.
#[derive(Debug, Clone, PartialEq)]
pub enum TableExpression {
    HashMap(Vec<(Expression, Expression)>),
    Array(Vec<Expression>),
}

/// A value that a stack slot still holds but that has been consumed: while
/// `is_shadowed` is set, visitors pass over it.
#[derive(Debug, Clone, PartialEq)]
pub struct ShadowExpression {
    pub is_shadowed: bool,
    pub value: Expression,
}

impl ShadowExpression {
    /// Wraps a value that is not yet shadowed.
    pub fn new(value: Expression) -> (r: Self)
        ensures
            r.value == value,
            !r.is_shadowed,
    {
        Self { value, is_shadowed: false }
    }

    /// Sets whether the value is shadowed.
    pub fn shadow(self, value: bool) -> (r: Self)
        ensures
            r.value == self.value,
            r.is_shadowed == value,
    {
        Self { value: self.value, is_shadowed: value }
    }
}

/// An index into a table.
#[derive(Debug, Clone, PartialEq)]
pub struct IndexOp {
    pub key: Expression,
    pub table: Expression,
}

/// A call of a function on arguments.
#[derive(Debug, Clone, PartialEq)]
pub struct CallExpression {
    pub arguments: Vec<Expression>,
    pub function: Expression,
    pub is_self: bool,
}

/// A function literal.
#[derive(Debug, PartialEq)]
pub struct FunctionExpression {
    pub body: Box<StatBlock>,
    pub has_vararg: bool,
    pub parameters: Vec<Expression>,
    pub self_arg: Option<Expression>,
}

/// An expression. Nodes are shared by reference counting and hold no
/// reference to their parents.
#[derive(Debug, Clone, PartialEq)]
pub enum Expression {
    Boolean(Rc<Boolean>),
    BinaryOp(Rc<BinaryExpression>),
    UnaryOp(Rc<UnaryExpression>),
    String(Rc<Str>),
    Number(Rc<Number>),
    Nil(Rc<Nil>),
    IndexOp(Rc<IndexOp>),
    Call(Rc<CallExpression>),
    Function(Rc<FunctionExpression>),
    GlobalSymbol(Rc<GlobalSymbol>),
    Identifier(Rc<Identifier>),
    Table(Rc<TableExpression>),
    Shadow(Rc<ShadowExpression>),
}

/// `Rc::clone`: another handle on the same value.
#[verifier::external_body]
fn rc_share<T>(rc: &Rc<T>) -> (r: Rc<T>)
    ensures
        r == *rc,
{
    Rc::clone(rc)
}

impl Expression {
    /// The same expression, sharing its node.
    pub fn share(&self) -> (r: Expression)
        ensures
            r == *self,
    {
        match self {
            Expression::Boolean(x) => Expression::Boolean(rc_share(x)),
            Expression::BinaryOp(x) => Expression::BinaryOp(rc_share(x)),
            Expression::UnaryOp(x) => Expression::UnaryOp(rc_share(x)),
            Expression::String(x) => Expression::String(rc_share(x)),
            Expression::Number(x) => Expression::Number(rc_share(x)),
            Expression::Nil(x) => Expression::Nil(rc_share(x)),
            Expression::IndexOp(x) => Expression::IndexOp(rc_share(x)),
            Expression::Call(x) => Expression::Call(rc_share(x)),
            Expression::Function(x) => Expression::Function(rc_share(x)),
            Expression::GlobalSymbol(x) => Expression::GlobalSymbol(rc_share(x)),
            Expression::Identifier(x) => Expression::Identifier(rc_share(x)),
            Expression::Table(x) => Expression::Table(rc_share(x)),
            Expression::Shadow(x) => Expression::Shadow(rc_share(x)),
        }
    }

    /// The statement that evaluates the expression.
    pub fn to_statement(self) -> (r: Statement)
        ensures
            r == Statement::StatExpr(Box::new(StatExpr { value: self })),
    {
        Statement::StatExpr(Box::new(StatExpr { value: self }))
    }
}

/// A unary operator as it is written in source, with the space that `not`
/// needs after it.
pub open spec fn unary_text(kind: UnaryOpKind) -> Seq<char> {
    match kind {
        UnaryOpKind::Len => "#"@,
        UnaryOpKind::Neg => "-"@,
        UnaryOpKind::Not => "not "@,
    }
}

/// A unary operator as it is written in source.
pub fn unary_symbol(kind: UnaryOpKind) -> (r: &'static str)
    ensures
        r@ == unary_text(kind),
{
    match kind {
        UnaryOpKind::Len => "#",
        UnaryOpKind::Neg => "-",
        UnaryOpKind::Not => "not ",
    }
}

/// Taking the compound form twice is the same as taking it once.
pub proof fn lemma_compound_idempotent(k: BinaryExpressionKind)
    ensures
        k.compound().compound() == k.compound(),
        BinaryExpressionKind::AddAssign.compound() == BinaryExpressionKind::AddAssign,
        BinaryExpressionKind::Add.compound() == BinaryExpressionKind::AddAssign,
{
}

} // verus!
