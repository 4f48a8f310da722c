use lunir::ast::expression::{
    BinaryExpression, BinaryExpressionKind, Boolean, CallExpression, Expression, GlobalSymbol,
    Identifier, IndexOp, Nil, Number, ShadowExpression, Str, TableExpression, UnaryExpression,
};
use lunir::ast::statement::{StatAssign, StatBlock, StatExpr, StatReturn, Statement};
use lunir::ast::visitors::source_reconstructor::{
    SourceReconstructor, SourceReconstructorSettings, SourceReconstructorSettingsBuilder,
};
use lunir::il::UnaryOpKind;
use std::rc::Rc;

fn global(name: &str) -> Expression {
    Expression::GlobalSymbol(Rc::new(GlobalSymbol(name.to_string())))
}

fn ident(name: &str) -> Expression {
    Expression::Identifier(Rc::new(Identifier(name.to_string())))
}

fn string(text: &str) -> Expression {
    Expression::String(Rc::new(Str(text.to_string())))
}

fn number(value: f64) -> Expression {
    Expression::Number(Rc::new(Number(value.to_string())))
}

fn call(function: Expression, arguments: Vec<Expression>) -> Expression {
    Expression::Call(Rc::new(CallExpression {
        arguments,
        function,
        is_self: false,
    }))
}

fn bare() -> SourceReconstructorSettings {
    SourceReconstructorSettingsBuilder::default()
        .custom_header(None)
        .use_semicolons(false)
        .build()
        .unwrap()
}

fn text_of(expression: &Expression) -> String {
    let mut reconstructor = SourceReconstructor::with_settings(bare());
    reconstructor.visit_expr(expression);
    reconstructor.source()
}

fn statement_text(settings: SourceReconstructorSettings, statement: &Statement) -> String {
    let mut reconstructor = SourceReconstructor::with_settings(settings);
    reconstructor.visit_stat(statement);
    reconstructor.source()
}

#[test]
fn ast_to_lua() {
    const EXPECTED: &'static str = r#"print("it worked!");"#;
    let settings = SourceReconstructorSettingsBuilder::default()
        .custom_header(None)
        .use_semicolons(true)
        .build()
        .expect("couldn't initialize settings");

    let expression = CallExpression {
        is_self: false,
        function: Expression::GlobalSymbol(Rc::new(GlobalSymbol("print".to_string()))),
        arguments: vec![Expression::String(Rc::new(Str("it worked!".to_string())))],
    };

    let mut reconstructor = SourceReconstructor::with_settings(settings.clone());
    reconstructor.visit_call(&expression);

    assert_eq!(reconstructor.source(), EXPECTED);

    let mut reconstructor = SourceReconstructor::with_settings(settings);
    let wrapped_expression = Expression::Call(Rc::new(expression));

    reconstructor.visit_expr(&wrapped_expression);

    assert_eq!(reconstructor.source(), EXPECTED);
}

#[test]
fn default_settings() {
    let settings = SourceReconstructorSettings::default();
    assert!(settings.use_semicolons);
    assert!(settings.use_newline);
    assert!(!settings.use_tabs);
    assert_eq!(settings.space_count, 4);
    assert_eq!(
        settings.custom_header.as_deref(),
        Some("Decompiled with LUNIR (https://github.com/lunir-project/lunir)")
    );
    let built = SourceReconstructorSettingsBuilder::default().build().unwrap();
    assert!(built.use_semicolons && built.use_newline && !built.use_tabs);
    assert_eq!(built.space_count, 4);
    assert_eq!(built.custom_header, settings.custom_header);
}

#[test]
fn builder_sets_each_option() {
    let built = SourceReconstructorSettingsBuilder::new()
        .use_semicolons(false)
        .use_newline(false)
        .use_tabs(true)
        .space_count(2)
        .custom_header(Some("hello".to_string()))
        .build()
        .unwrap();
    assert!(!built.use_semicolons && !built.use_newline && built.use_tabs);
    assert_eq!(built.space_count, 2);
    assert_eq!(built.custom_header.as_deref(), Some("hello"));
}

#[test]
fn header_is_a_comment_line() {
    let mut reconstructor = SourceReconstructor::default();
    reconstructor.visit_stat(&call(global("f"), vec![]).to_statement());
    assert_eq!(
        reconstructor.source(),
        "// Decompiled with LUNIR (https://github.com/lunir-project/lunir)\nf();\n"
    );
    let settings = SourceReconstructorSettingsBuilder::default()
        .custom_header(Some("mine".to_string()))
        .build()
        .unwrap();
    assert_eq!(SourceReconstructor::with_settings(settings).source(), "// mine\n");
}

#[test]
fn leaves_print_their_literal_text() {
    assert_eq!(text_of(&Expression::Nil(Rc::new(Nil))), "nil");
    assert_eq!(text_of(&Expression::Boolean(Rc::new(Boolean(true)))), "true");
    assert_eq!(text_of(&Expression::Boolean(Rc::new(Boolean(false)))), "false");
    assert_eq!(text_of(&number(1.5)), "1.5");
    assert_eq!(text_of(&number(42.0)), "42");
    assert_eq!(text_of(&ident("x")), "x");
    assert_eq!(text_of(&global("print")), "print");
    assert_eq!(text_of(&string("a\"b\n")), "\"a\\\"b\\n\"");
}

#[test]
fn operators_print_with_their_spacing() {
    let sum = Expression::BinaryOp(Rc::new(BinaryExpression {
        kind: BinaryExpressionKind::Add,
        left: ident("a"),
        right: number(1.0),
    }));
    assert_eq!(text_of(&sum), "a + 1");
    let compound = Expression::BinaryOp(Rc::new(BinaryExpression {
        kind: BinaryExpressionKind::ConcatAssign,
        left: ident("s"),
        right: string("x"),
    }));
    assert_eq!(text_of(&compound), "s ..= \"x\"");
    let not = Expression::UnaryOp(Rc::new(UnaryExpression {
        kind: UnaryOpKind::Not,
        value: ident("a"),
    }));
    assert_eq!(text_of(&not), "not a");
    let len = Expression::UnaryOp(Rc::new(UnaryExpression {
        kind: UnaryOpKind::Len,
        value: ident("t"),
    }));
    assert_eq!(text_of(&len), "#t");
    let neg = Expression::UnaryOp(Rc::new(UnaryExpression {
        kind: UnaryOpKind::Neg,
        value: sum,
    }));
    assert_eq!(text_of(&neg), "-a + 1");
    let kinds = [
        (BinaryExpressionKind::Sub, "-"),
        (BinaryExpressionKind::Mul, "*"),
        (BinaryExpressionKind::Div, "/"),
        (BinaryExpressionKind::Mod, "%"),
        (BinaryExpressionKind::Pow, "^"),
        (BinaryExpressionKind::Concat, ".."),
        (BinaryExpressionKind::AddAssign, "+="),
        (BinaryExpressionKind::SubAssign, "-="),
        (BinaryExpressionKind::MulAssign, "*="),
        (BinaryExpressionKind::DivAssign, "/="),
        (BinaryExpressionKind::ModAssign, "%="),
        (BinaryExpressionKind::PowAssign, "^="),
    ];
    for (kind, text) in kinds {
        assert_eq!(kind.symbol(), text);
    }
}

#[test]
fn calls_separate_arguments_by_comma_and_space() {
    assert_eq!(text_of(&call(global("f"), vec![])), "f()");
    assert_eq!(
        text_of(&call(global("print"), vec![string("a"), string("b"), string("c")])),
        "print(\"a\", \"b\", \"c\")"
    );
    assert_eq!(
        text_of(&call(global("f"), vec![call(global("g"), vec![ident("x")]), number(2.0)])),
        "f(g(x), 2)"
    );
}

#[test]
fn index_forms() {
    let dotted = Expression::IndexOp(Rc::new(IndexOp {
        table: ident("t"),
        key: string("name"),
    }));
    assert_eq!(text_of(&dotted), "t.name");
    let quoted = Expression::IndexOp(Rc::new(IndexOp {
        table: ident("t"),
        key: string("not a name"),
    }));
    assert_eq!(text_of(&quoted), "t[\"not a name\"]");
    let digit = Expression::IndexOp(Rc::new(IndexOp {
        table: ident("t"),
        key: string("1x"),
    }));
    assert_eq!(text_of(&digit), "t[\"1x\"]");
    let computed = Expression::IndexOp(Rc::new(IndexOp {
        table: ident("t"),
        key: ident("k"),
    }));
    assert_eq!(text_of(&computed), "t[k]");
}

#[test]
fn shadowed_values_are_passed_over() {
    let hidden = Expression::Shadow(Rc::new(ShadowExpression::new(ident("a")).shadow(true)));
    assert_eq!(text_of(&hidden), "");
    let shown = Expression::Shadow(Rc::new(ShadowExpression::new(ident("a"))));
    assert_eq!(text_of(&shown), "a");
}

#[test]
fn tables_are_walked_in_order() {
    let array = Expression::Table(Rc::new(TableExpression::Array(vec![ident("a"), ident("b")])));
    assert_eq!(text_of(&array), "ab");
    let map = Expression::Table(Rc::new(TableExpression::HashMap(vec![
        (ident("k"), ident("v")),
        (ident("k"), ident("w")),
    ])));
    assert_eq!(text_of(&map), "kvkw");
}

#[test]
fn statement_suffixes() {
    let statement = call(global("f"), vec![]).to_statement();
    let with = |semicolons: bool, newline: bool| {
        SourceReconstructorSettingsBuilder::default()
            .custom_header(None)
            .use_semicolons(semicolons)
            .use_newline(newline)
            .build()
            .unwrap()
    };
    assert_eq!(statement_text(with(true, true), &statement), "f();\n");
    assert_eq!(statement_text(with(false, true), &statement), "f()\n");
    assert_eq!(statement_text(with(true, false), &statement), "f();");
    assert_eq!(statement_text(with(false, false), &statement), "f();");
}

#[test]
fn statements_print() {
    let ret = Statement::StatReturn(Box::new(StatReturn {
        results: vec![ident("a"), ident("b")],
    }));
    assert_eq!(statement_text(bare(), &ret), "return a, b\n");
    let empty = Statement::StatReturn(Box::new(StatReturn { results: vec![] }));
    assert_eq!(statement_text(bare(), &empty), "return \n");
    let assign = Statement::StatAssign(Box::new(StatAssign {
        target: global("g"),
        value: number(3.0),
    }));
    assert_eq!(statement_text(bare(), &assign), "g = 3\n");
    let block = Statement::StatBlock(Box::new(StatBlock {
        body: vec![
            Statement::StatExpr(Box::new(StatExpr {
                value: call(global("f"), vec![]),
            })),
            ret,
        ],
    }));
    assert_eq!(statement_text(bare(), &block), "f()\nreturn a, b\n\n");
}

#[test]
fn reconstruction_is_a_function_of_tree_and_settings() {
    let tree = call(global("print"), vec![string("x"), ident("y")]);
    let first = text_of(&tree);
    let second = text_of(&tree);
    assert_eq!(first, second);
    assert_eq!(first, "print(\"x\", y)");
}

#[test]
fn expressions_become_statements() {
    let call = call(global("f"), vec![]);
    let direct = call.clone().to_statement();
    let converted: Statement = call.clone().into();
    assert_eq!(direct, converted);
    assert_eq!(
        direct,
        Statement::StatExpr(Box::new(StatExpr { value: call }))
    );
    assert_eq!(StatBlock::default().body, vec![]);
    assert_eq!(StatReturn::default().results, vec![]);
}
