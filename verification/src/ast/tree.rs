//! Trees of nodes, as a parser hands them to the compile pipeline.

use vstd::prelude::*;

use std::rc::Rc;

use crate::ast::expression::{
    BinaryExpression, Boolean, CallExpression, Expression, FunctionExpression, GlobalSymbol,
    Identifier, IndexOp, Nil, Number, ShadowExpression, Str, TableExpression, UnaryExpression,
};
use crate::ast::statement::{StatAssign, StatBlock, StatReturn, Statement};
use crate::ast::view::{exprs_view, pairs_view, stmts_view, ExprView, StmtView};

verus! {

/// What a node holds.
#[derive(Debug)]
pub enum NodeKind {
    Expression(Expression),
    Statement(Statement),
    Empty,
}

impl Default for NodeKind {
    fn default() -> (r: Self)
        ensures
            r is Empty,
    {
        NodeKind::Empty
    }
}

/// A node and its children.
#[derive(Debug)]
pub struct Node {
    pub data: Box<NodeKind>,
    pub children: Vec<Node>,
}

impl Default for Node {
    fn default() -> (r: Self)
        ensures
            *r.data is Empty,
            r.children@.len() == 0,
    {
        Node { data: Box::new(NodeKind::Empty), children: Vec::new() }
    }
}

/// The leaves of an expression in document order: the literals and names
/// that a walk of the expression comes by. Operands come left before
/// right, a table before its key, a function before its arguments and
/// these in their positions, a key before its value, the receiver of a
/// function before its parameters and these before its body. A shadowed
/// value has no leaves.
pub open spec fn leaves(e: ExprView) -> Seq<ExprView>
    decreases e,
{
    match e {
        ExprView::BinaryOp { kind, left, right } => leaves(*left).add(leaves(*right)),
        ExprView::UnaryOp { kind, value } => leaves(*value),
        ExprView::IndexOp { table, key } => leaves(*table).add(leaves(*key)),
        ExprView::Call { function, arguments, is_self } => leaves(*function).add(
            leaves_each(arguments),
        ),
        ExprView::Function { body, has_vararg, parameters, self_arg } => (match self_arg {
            Some(a) => leaves(*a),
            None => Seq::empty(),
        }).add(leaves_each(parameters)).add(leaves_stmts(body)),
        ExprView::TableArray(elements) => leaves_each(elements),
        ExprView::TableMap(pairs) => leaves_pairs(pairs),
        ExprView::Shadow { value, is_shadowed } => if is_shadowed {
            Seq::empty()
        } else {
            leaves(*value)
        },
        leaf => seq![leaf],
    }
}

/// The leaves of expressions, one expression after the other.
pub open spec fn leaves_each(es: Seq<ExprView>) -> Seq<ExprView>
    decreases es,
{
    if es.len() == 0 {
        Seq::empty()
    } else {
        leaves_each(es.drop_last()).add(leaves(es.last()))
    }
}

/// The leaves of pairs, each key before its value.
pub open spec fn leaves_pairs(ps: Seq<(ExprView, ExprView)>) -> Seq<ExprView>
    decreases ps,
{
    if ps.len() == 0 {
        Seq::empty()
    } else {
        leaves_pairs(ps.drop_last()).add(leaves(ps.last().0)).add(leaves(ps.last().1))
    }
}

/// The leaves of a statement in document order.
pub open spec fn leaves_stmt(s: StmtView) -> Seq<ExprView>
    decreases s,
{
    match s {
        StmtView::Block(statements) => leaves_stmts(statements),
        StmtView::Expr(e) => leaves(e),
        StmtView::Return(results) => leaves_each(results),
        StmtView::Assign { target, value } => leaves(target).add(leaves(value)),
    }
}

/// The leaves of statements, one statement after the other.
pub open spec fn leaves_stmts(ss: Seq<StmtView>) -> Seq<ExprView>
    decreases ss,
{
    if ss.len() == 0 {
        Seq::empty()
    } else {
        leaves_stmts(ss.drop_last()).add(leaves_stmt(ss.last()))
    }
}

/// A visitor that keeps the leaves it comes by, in the order of the walk.
#[derive(Debug, Default)]
pub struct LeafCollector {
    found: Vec<Expression>,
}

impl View for LeafCollector {
    type V = Seq<ExprView>;

    closed spec fn view(&self) -> Seq<ExprView> {
        exprs_view(self.found@)
    }
}

impl LeafCollector {
    /// A collector that has come by nothing.
    pub fn new() -> (r: Self)
        ensures
            r@ == Seq::<ExprView>::empty(),
    {
        let r = LeafCollector { found: Vec::new() };
        assert(r@ =~= Seq::<ExprView>::empty());
        r
    }

    /// The leaves found, in the order of the walk.
    pub fn into_leaves(self) -> (r: Vec<Expression>)
        ensures
            exprs_view(r@) == self@,
    {
        self.found
    }

    fn keep(&mut self, leaf: Expression)
        ensures
            final(self)@ == old(self)@.push(leaf@),
    {
        self.found.push(leaf);
        assert(self@ =~= old(self)@.push(leaf@));
    }

    /// Comes by a boolean literal.
    pub fn visit_bool(&mut self, node: &Boolean)
        ensures
            final(self)@ == old(self)@.push(ExprView::Boolean(node.0)),
    {
        self.keep(Expression::Boolean(Rc::new(Boolean(node.0))));
    }

    /// Comes by a string literal.
    pub fn visit_string(&mut self, node: &Str)
        ensures
            final(self)@ == old(self)@.push(ExprView::String(node.0@)),
    {
        self.keep(Expression::String(Rc::new(Str(node.0.clone()))));
    }

    /// Comes by a numeric literal.
    pub fn visit_number(&mut self, node: &Number)
        ensures
            final(self)@ == old(self)@.push(ExprView::Number(node.0@)),
    {
        self.keep(Expression::Number(Rc::new(Number(node.0.clone()))));
    }

    /// Comes by `nil`.
    pub fn visit_nil(&mut self, node: &Nil)
        ensures
            final(self)@ == old(self)@.push(ExprView::Nil),
    {
        self.keep(Expression::Nil(Rc::new(Nil)));
    }

    /// Comes by the name of a local.
    pub fn visit_identifier(&mut self, node: &Identifier)
        ensures
            final(self)@ == old(self)@.push(ExprView::Identifier(node.0@)),
    {
        self.keep(Expression::Identifier(Rc::new(Identifier(node.0.clone()))));
    }

    /// Comes by the name of a global.
    pub fn visit_global_symbol(&mut self, node: &GlobalSymbol)
        ensures
            final(self)@ == old(self)@.push(ExprView::GlobalSymbol(node.0@)),
    {
        self.keep(Expression::GlobalSymbol(Rc::new(GlobalSymbol(node.0.clone()))));
    }
}

/// Walks an expression: hands a leaf to the visitor and walks into the
/// children of any other node in document order.
pub fn walk_expression(visitor: &mut LeafCollector, node: &Expression)
    ensures
        final(visitor)@ == old(visitor)@.add(leaves(node@)),
    decreases node,
{
    match node {
        Expression::BinaryOp(binary) => walk_binary(visitor, binary),
        Expression::Boolean(b) => {
            visitor.visit_bool(b);
            assert(visitor@ =~= old(visitor)@.add(leaves(node@)));
        },
        Expression::Call(call) => walk_call(visitor, call),
        Expression::Function(func) => walk_function(visitor, func),
        Expression::GlobalSymbol(ident) => {
            visitor.visit_global_symbol(ident);
            assert(visitor@ =~= old(visitor)@.add(leaves(node@)));
        },
        Expression::Identifier(ident) => {
            visitor.visit_identifier(ident);
            assert(visitor@ =~= old(visitor)@.add(leaves(node@)));
        },
        Expression::IndexOp(index) => walk_index_op(visitor, index),
        Expression::Nil(n) => {
            visitor.visit_nil(n);
            assert(visitor@ =~= old(visitor)@.add(leaves(node@)));
        },
        Expression::Number(n) => {
            visitor.visit_number(n);
            assert(visitor@ =~= old(visitor)@.add(leaves(node@)));
        },
        Expression::String(s) => {
            visitor.visit_string(s);
            assert(visitor@ =~= old(visitor)@.add(leaves(node@)));
        },
        Expression::Table(table) => walk_table(visitor, table),
        Expression::UnaryOp(unary) => walk_unary(visitor, unary),
        Expression::Shadow(shadow) => walk_shadowed(visitor, shadow),
    }
}

/// Walks a shadowed value: into the value unless it is shadowed.
pub fn walk_shadowed(visitor: &mut LeafCollector, node: &ShadowExpression)
    ensures
        final(visitor)@ == old(visitor)@.add(leaves(node@)),
    decreases node,
{
    if !node.is_shadowed {
        walk_expression(visitor, &node.value);
    } else {
        assert(visitor@ =~= old(visitor)@.add(Seq::empty()));
    }
}

/// Walks a statement into what it holds.
pub fn walk_statement(visitor: &mut LeafCollector, node: &Statement)
    ensures
        final(visitor)@ == old(visitor)@.add(leaves_stmt(node@)),
    decreases node,
{
    match node {
        Statement::StatBlock(block) => walk_stat_block(visitor, block),
        Statement::StatExpr(expr) => walk_expression(visitor, &expr.value),
        Statement::StatReturn(ret) => walk_return(visitor, ret),
        Statement::StatAssign(assign) => walk_assign(visitor, assign),
    }
}

/// Walks the statements of a block in their order.
#[verifier::loop_isolation(false)]
pub fn walk_stat_block(visitor: &mut LeafCollector, node: &StatBlock)
    ensures
        final(visitor)@ == old(visitor)@.add(leaves_stmts(node@)),
    decreases node,
{
    let ghost views = stmts_view(node.body@);
    let mut i: usize = 0;
    assert(views.take(0) =~= Seq::<StmtView>::empty());
    assert(visitor@ =~= old(visitor)@.add(leaves_stmts(views.take(0))));
    while i < node.body.len()
        invariant
            i <= node.body.len(),
            visitor@ == old(visitor)@.add(leaves_stmts(views.take(i as int))),
        decreases node.body.len() - i,
    {
        walk_statement(visitor, &node.body[i]);
        proof {
            assert(views.take(i + 1).drop_last() =~= views.take(i as int));
            assert(views.take(i + 1).last() == node.body@[i as int]@);
            assert(visitor@ =~= old(visitor)@.add(leaves_stmts(views.take(i + 1))));
        }
        i += 1;
    }
    assert(views.take(node.body.len() as int) =~= views);
}

#[verifier::loop_isolation(false)]
fn walk_each(visitor: &mut LeafCollector, nodes: &Vec<Expression>)
    ensures
        final(visitor)@ == old(visitor)@.add(leaves_each(exprs_view(nodes@))),
    decreases nodes,
{
    let ghost views = exprs_view(nodes@);
    let mut i: usize = 0;
    assert(views.take(0) =~= Seq::<ExprView>::empty());
    assert(visitor@ =~= old(visitor)@.add(leaves_each(views.take(0))));
    while i < nodes.len()
        invariant
            i <= nodes.len(),
            visitor@ == old(visitor)@.add(leaves_each(views.take(i as int))),
        decreases nodes.len() - i,
    {
        walk_expression(visitor, &nodes[i]);
        proof {
            assert(views.take(i + 1).drop_last() =~= views.take(i as int));
            assert(views.take(i + 1).last() == nodes@[i as int]@);
            assert(visitor@ =~= old(visitor)@.add(leaves_each(views.take(i + 1))));
        }
        i += 1;
    }
    assert(views.take(nodes.len() as int) =~= views);
}

/// Walks the results of a return in their order.
pub fn walk_return(visitor: &mut LeafCollector, node: &StatReturn)
    ensures
        final(visitor)@ == old(visitor)@.add(leaves_stmt(node@)),
    decreases node,
{
    walk_each(visitor, &node.results);
}

/// Walks an assignment: the target and then the value.
pub fn walk_assign(visitor: &mut LeafCollector, node: &StatAssign)
    ensures
        final(visitor)@ == old(visitor)@.add(leaves_stmt(node@)),
    decreases node,
{
    walk_expression(visitor, &node.target);
    walk_expression(visitor, &node.value);
    assert(visitor@ =~= old(visitor)@.add(leaves_stmt(node@)));
}

/// Walks a binary operation: the left operand and then the right.
pub fn walk_binary(visitor: &mut LeafCollector, node: &BinaryExpression)
    ensures
        final(visitor)@ == old(visitor)@.add(leaves(node@)),
    decreases node,
{
    walk_expression(visitor, &node.left);
    walk_expression(visitor, &node.right);
    assert(visitor@ =~= old(visitor)@.add(leaves(node@)));
}

/// Walks an index: the table and then the key.
pub fn walk_index_op(visitor: &mut LeafCollector, node: &IndexOp)
    ensures
        final(visitor)@ == old(visitor)@.add(leaves(node@)),
    decreases node,
{
    walk_expression(visitor, &node.table);
    walk_expression(visitor, &node.key);
    assert(visitor@ =~= old(visitor)@.add(leaves(node@)));
}

/// Walks a unary operation into its operand.
pub fn walk_unary(visitor: &mut LeafCollector, node: &UnaryExpression)
    ensures
        final(visitor)@ == old(visitor)@.add(leaves(node@)),
    decreases node,
{
    walk_expression(visitor, &node.value);
}

/// Walks a table: its elements in their order, or its pairs in their
/// order, each key before its value.
#[verifier::loop_isolation(false)]
pub fn walk_table(visitor: &mut LeafCollector, node: &TableExpression)
    ensures
        final(visitor)@ == old(visitor)@.add(leaves(node@)),
    decreases node,
{
    match node {
        TableExpression::Array(array) => walk_each(visitor, array),
        TableExpression::HashMap(map) => {
            let ghost views = pairs_view(map@);
            let mut i: usize = 0;
            assert(views.take(0) =~= Seq::<(ExprView, ExprView)>::empty());
            assert(visitor@ =~= old(visitor)@.add(leaves_pairs(views.take(0))));
            while i < map.len()
                invariant
                    i <= map.len(),
                    visitor@ == old(visitor)@.add(leaves_pairs(views.take(i as int))),
                decreases map.len() - i,
            {
                walk_expression(visitor, &map[i].0);
                walk_expression(visitor, &map[i].1);
                proof {
                    assert(views.take(i + 1).drop_last() =~= views.take(i as int));
                    assert(views.take(i + 1).last() == (map@[i as int].0@, map@[i as int].1@));
                    assert(visitor@ =~= old(visitor)@.add(leaves_pairs(views.take(i + 1))));
                }
                i += 1;
            }
            assert(views.take(map.len() as int) =~= views);
        },
    }
}

/// Walks a call: the function and then the arguments in their positions.
pub fn walk_call(visitor: &mut LeafCollector, node: &CallExpression)
    ensures
        final(visitor)@ == old(visitor)@.add(leaves(node@)),
    decreases node,
{
    walk_expression(visitor, &node.function);
    walk_each(visitor, &node.arguments);
    assert(visitor@ =~= old(visitor)@.add(leaves(node@)));
}

/// Walks a function: the receiver, if it has one, then the parameters and
/// then the body.
pub fn walk_function(visitor: &mut LeafCollector, node: &FunctionExpression)
    ensures
        final(visitor)@ == old(visitor)@.add(leaves(node@)),
    decreases node,
{
    match &node.self_arg {
        Some(a) => {
            walk_expression(visitor, a);
        },
        None => {
            assert(visitor@ =~= old(visitor)@.add(Seq::empty()));
        },
    }
    walk_each(visitor, &node.parameters);
    walk_stat_block(visitor, &node.body);
    assert(visitor@ =~= old(visitor)@.add(leaves(node@)));
}

} // verus!
