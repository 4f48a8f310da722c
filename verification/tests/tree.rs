use lunir::ast::expression::{
    BinaryExpression, BinaryExpressionKind, Boolean, CallExpression, Expression,
    FunctionExpression, GlobalSymbol, Identifier, IndexOp, Nil, Number, ShadowExpression, Str,
    TableExpression, UnaryExpression,
};
use lunir::ast::statement::{StatAssign, StatBlock, StatExpr, StatReturn, Statement};
use lunir::ast::tree::{
    walk_binary, walk_call, walk_expression, walk_function, walk_index_op, walk_return,
    walk_shadowed, walk_stat_block, walk_statement, walk_table, walk_unary, LeafCollector, Node,
    NodeKind,
};
use lunir::ast::visitors::source_reconstructor::{
    SourceReconstructor, SourceReconstructorSettingsBuilder,
};
use lunir::il::UnaryOpKind;
use std::rc::Rc;

fn ident(name: &str) -> Expression {
    Expression::Identifier(Rc::new(Identifier(name.to_string())))
}

fn names(collector: LeafCollector) -> Vec<Expression> {
    collector.into_leaves()
}

fn idents(list: &[&str]) -> Vec<Expression> {
    list.iter().map(|n| ident(n)).collect()
}

#[test]
fn leaves_of_every_kind() {
    let mut collector = LeafCollector::new();
    collector.visit_bool(&Boolean(true));
    collector.visit_string(&Str("s".to_string()));
    collector.visit_number(&Number("1".to_string()));
    collector.visit_nil(&Nil);
    collector.visit_identifier(&Identifier("i".to_string()));
    collector.visit_global_symbol(&GlobalSymbol("g".to_string()));
    assert_eq!(
        names(collector),
        vec![
            Expression::Boolean(Rc::new(Boolean(true))),
            Expression::String(Rc::new(Str("s".to_string()))),
            Expression::Number(Rc::new(Number("1".to_string()))),
            Expression::Nil(Rc::new(Nil)),
            ident("i"),
            Expression::GlobalSymbol(Rc::new(GlobalSymbol("g".to_string()))),
        ]
    );
}

#[test]
fn operands_are_walked_left_to_right() {
    let binary = BinaryExpression {
        kind: BinaryExpressionKind::Add,
        left: ident("l"),
        right: ident("r"),
    };
    let mut collector = LeafCollector::new();
    walk_binary(&mut collector, &binary);
    assert_eq!(names(collector), idents(&["l", "r"]));
    let unary = UnaryExpression {
        kind: UnaryOpKind::Neg,
        value: Expression::BinaryOp(Rc::new(binary)),
    };
    let mut collector = LeafCollector::new();
    walk_unary(&mut collector, &unary);
    assert_eq!(names(collector), idents(&["l", "r"]));
    let index = IndexOp {
        key: ident("k"),
        table: ident("t"),
    };
    let mut collector = LeafCollector::new();
    walk_index_op(&mut collector, &index);
    assert_eq!(names(collector), idents(&["t", "k"]));
}

#[test]
fn calls_and_tables_are_walked_in_order() {
    let call = CallExpression {
        function: ident("f"),
        arguments: idents(&["a", "b", "c"]),
        is_self: false,
    };
    let mut collector = LeafCollector::new();
    walk_call(&mut collector, &call);
    assert_eq!(names(collector), idents(&["f", "a", "b", "c"]));
    let map = TableExpression::HashMap(vec![
        (ident("k1"), ident("v1")),
        (ident("k2"), ident("v2")),
    ]);
    let mut collector = LeafCollector::new();
    walk_table(&mut collector, &map);
    assert_eq!(names(collector), idents(&["k1", "v1", "k2", "v2"]));
    let array = TableExpression::Array(idents(&["x", "y"]));
    let mut collector = LeafCollector::new();
    walk_table(&mut collector, &array);
    assert_eq!(names(collector), idents(&["x", "y"]));
}

#[test]
fn shadowed_values_are_not_walked() {
    let hidden = ShadowExpression::new(ident("a")).shadow(true);
    let mut collector = LeafCollector::new();
    walk_shadowed(&mut collector, &hidden);
    assert_eq!(names(collector), vec![]);
    let shown = ShadowExpression::new(ident("a"));
    let mut collector = LeafCollector::new();
    walk_shadowed(&mut collector, &shown);
    assert_eq!(names(collector), idents(&["a"]));
    let nested = Expression::Call(Rc::new(CallExpression {
        function: ident("f"),
        arguments: vec![Expression::Shadow(Rc::new(hidden)), ident("b")],
        is_self: false,
    }));
    let mut collector = LeafCollector::new();
    walk_expression(&mut collector, &nested);
    assert_eq!(names(collector), idents(&["f", "b"]));
}

#[test]
fn functions_are_walked_receiver_parameters_body() {
    let function = FunctionExpression {
        body: Box::new(StatBlock {
            body: vec![Statement::StatReturn(Box::new(StatReturn {
                results: idents(&["r"]),
            }))],
        }),
        has_vararg: false,
        parameters: idents(&["p", "q"]),
        self_arg: Some(ident("self")),
    };
    let mut collector = LeafCollector::new();
    walk_function(&mut collector, &function);
    assert_eq!(names(collector), idents(&["self", "p", "q", "r"]));
}

#[test]
fn statements_are_walked_in_order() {
    let ret = StatReturn {
        results: idents(&["a", "b"]),
    };
    let mut collector = LeafCollector::new();
    walk_return(&mut collector, &ret);
    assert_eq!(names(collector), idents(&["a", "b"]));
    let block = StatBlock {
        body: vec![
            Statement::StatExpr(Box::new(StatExpr { value: ident("x") })),
            Statement::StatAssign(Box::new(StatAssign {
                target: ident("t"),
                value: ident("v"),
            })),
            Statement::StatReturn(Box::new(ret)),
        ],
    };
    let mut collector = LeafCollector::new();
    walk_stat_block(&mut collector, &block);
    assert_eq!(names(collector), idents(&["x", "t", "v", "a", "b"]));
    let mut collector = LeafCollector::new();
    walk_statement(&mut collector, &Statement::StatBlock(Box::new(block)));
    assert_eq!(names(collector), idents(&["x", "t", "v", "a", "b"]));
}

#[test]
fn nodes_default_to_empty() {
    let node = Node::default();
    assert!(matches!(*node.data, NodeKind::Empty));
    assert!(node.children.is_empty());
    assert!(matches!(NodeKind::default(), NodeKind::Empty));
}

#[test]
fn indentation_by_level() {
    let spaces = SourceReconstructorSettingsBuilder::default()
        .custom_header(None)
        .use_semicolons(false)
        .space_count(3)
        .build()
        .unwrap();
    let mut reconstructor = SourceReconstructor::with_settings(spaces);
    reconstructor.set_indents(2);
    reconstructor.indent();
    assert_eq!(reconstructor.source(), "      ");
    let tabs = SourceReconstructorSettingsBuilder::default()
        .custom_header(None)
        .use_semicolons(false)
        .use_tabs(true)
        .build()
        .unwrap();
    let mut reconstructor = SourceReconstructor::with_settings(tabs);
    reconstructor.set_indents(3);
    reconstructor.indent();
    assert_eq!(reconstructor.source(), "\t\t\t");
}
