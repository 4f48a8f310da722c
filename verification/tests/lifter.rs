use lunir::ast::expression::{
    BinaryExpression, BinaryExpressionKind, Boolean, CallExpression, Expression, GlobalSymbol,
    Identifier, IndexOp, Nil, Number, ShadowExpression, Str, TableExpression, UnaryExpression,
};
use lunir::ast::statement::{StatAssign, StatBlock, StatReturn, Statement};
use lunir::error::LunirError;
use lunir::il::{
    BinaryOp, BinaryOpKind, Call, Constant, Function, GetGlobal, GetTable, Instruction, Intrinsic,
    IntrinsicKind, Jump, JumpBranch, Load, NewTable, OptVariable, Return, SetGlobal, Table, UnaryOp,
    UnaryOpKind, Value, Vararg,
};
use lunir::lifter::{lift_instruction, ExpressionStack, Lifter};
use std::rc::Rc;

fn ident(name: &str) -> Expression {
    Expression::Identifier(Rc::new(Identifier(name.to_string())))
}

fn number(text: &str) -> Expression {
    Expression::Number(Rc::new(Number(text.to_string())))
}

fn string(text: &str) -> Expression {
    Expression::String(Rc::new(Str(text.to_string())))
}

fn nil() -> Expression {
    Expression::Nil(Rc::new(Nil))
}

fn shadow(value: Expression) -> Expression {
    Expression::Shadow(Rc::new(ShadowExpression::new(value).shadow(true)))
}

fn function(constants: Vec<Constant>, max_stack_size: u8) -> Function {
    Function {
        constants,
        code: vec![],
        is_variadic: Vararg::IsVararg,
        lineinfo: vec![],
        name: None,
        upvalue_count: 0,
        param_count: 0,
        max_stack_size,
    }
}

fn stack_of(slots: Vec<Expression>) -> ExpressionStack {
    let mut stack = ExpressionStack::new();
    for slot in slots {
        stack.push_local(slot);
    }
    stack
}

fn slots(stack: &ExpressionStack) -> Vec<Expression> {
    (0..stack.len())
        .map(|i| stack.get_local(i).unwrap().clone())
        .collect()
}

fn lifter(constants: Vec<Constant>, code: Vec<Instruction>, stack: Vec<Expression>) -> Lifter {
    let size = stack.len() as u8;
    Lifter::new(function(constants, size), code, stack_of(stack))
}

#[test]
fn return_of_two_slots() {
    let code = vec![Instruction::Return(Box::new(Return {
        result_start: 0,
        result_count: 2,
    }))];
    let mut lifter = lifter(vec![], code, vec![ident("a"), ident("b")]);
    let block = lifter.lift().unwrap();
    assert_eq!(
        *block,
        StatBlock {
            body: vec![Statement::StatReturn(Box::new(StatReturn {
                results: vec![ident("a"), ident("b")],
            }))],
        }
    );
    assert_eq!(
        slots(&lifter.expression_stack),
        vec![ident("a"), shadow(ident("b"))]
    );
}

#[test]
fn return_verifies_its_last_slot() {
    let code = vec![Instruction::Return(Box::new(Return {
        result_start: 1,
        result_count: 2,
    }))];
    let mut lifter = lifter(vec![], code, vec![ident("a"), ident("b")]);
    assert_eq!(lifter.lift(), Err(LunirError::StackUnderflow(2)));
    assert_eq!(slots(&lifter.expression_stack), vec![ident("a"), ident("b")]);
    let nothing = vec![Instruction::Return(Box::new(Return {
        result_start: 0,
        result_count: 0,
    }))];
    let mut empty = Lifter::new(function(vec![], 0), nothing, ExpressionStack::new());
    assert_eq!(
        *empty.lift().unwrap(),
        StatBlock {
            body: vec![Statement::StatReturn(Box::new(StatReturn { results: vec![] }))],
        }
    );
}

#[test]
fn return_shadows_through_the_register_file() {
    let code = vec![Instruction::Return(Box::new(Return {
        result_start: 0,
        result_count: 1,
    }))];
    let mut short = Lifter::new(
        function(vec![], 3),
        code,
        stack_of(vec![ident("a"), ident("b")]),
    );
    assert_eq!(short.lift(), Err(LunirError::StackUnderflow(2)));
}

#[test]
fn load_writes_operands() {
    let code = vec![
        Instruction::Load(Box::new(Load {
            dest: 0,
            src: Value::Immediate(-12),
        })),
        Instruction::Load(Box::new(Load {
            dest: 1,
            src: Value::Boolean(true),
        })),
        Instruction::Load(Box::new(Load {
            dest: 2,
            src: Value::StackIndex(0),
        })),
        Instruction::Load(Box::new(Load {
            dest: 3,
            src: Value::ConstantIndex(0),
        })),
        Instruction::Load(Box::new(Load {
            dest: 4,
            src: Value::Immediate(i32::MIN),
        })),
    ];
    let mut lifter = lifter(
        vec![Constant::String("hello".to_string())],
        code,
        vec![ident("a"), ident("b"), ident("c"), ident("d"), ident("e")],
    );
    let block = lifter.lift().unwrap();
    assert!(block.body.is_empty());
    assert_eq!(
        slots(&lifter.expression_stack),
        vec![
            number("-12"),
            Expression::Boolean(Rc::new(Boolean(true))),
            number("-12"),
            string("hello"),
            number("-2147483648"),
        ]
    );
}

#[test]
fn number_from_i32_is_its_decimal_text() {
    assert_eq!(Number::from_i32(0), Number("0".to_string()));
    assert_eq!(Number::from_i32(7), Number("7".to_string()));
    assert_eq!(Number::from_i32(-1), Number("-1".to_string()));
    assert_eq!(Number::from_i32(i32::MAX), Number("2147483647".to_string()));
    assert_eq!(Number::from_i32(5), Number((5 as f64).to_string()));
    assert_eq!(Number::from_i32(-40), Number((-40 as f64).to_string()));
}

#[test]
fn errors_of_load() {
    let load = |dest: usize, src: Value| vec![Instruction::Load(Box::new(Load { dest, src }))];
    let mut out_of_stack = lifter(vec![], load(1, Value::Nil), vec![nil()]);
    assert_eq!(out_of_stack.lift(), Err(LunirError::StackUnderflow(1)));
    let mut bad_source = lifter(vec![], load(0, Value::StackIndex(5)), vec![nil()]);
    assert_eq!(bad_source.lift(), Err(LunirError::StackUnderflow(5)));
    let mut bad_constant = lifter(vec![], load(0, Value::ConstantIndex(3)), vec![nil()]);
    assert_eq!(bad_constant.lift(), Err(LunirError::ConstantOutOfRange(3)));
    let mut dest_first = lifter(vec![], load(9, Value::ConstantIndex(3)), vec![nil()]);
    assert_eq!(dest_first.lift(), Err(LunirError::StackUnderflow(9)));
    let inner = function(vec![], 0);
    let mut nested = lifter(
        vec![Constant::Function(inner)],
        load(0, Value::ConstantIndex(0)),
        vec![nil()],
    );
    assert_eq!(nested.lift(), Err(LunirError::Unimplemented));
}

#[test]
fn jumps_are_not_lifted() {
    let jump = Instruction::Jump(Box::new(Jump {
        branch: JumpBranch {
            start: 0,
            end: 0,
            offset: 0,
        },
    }));
    let mut lifter = lifter(vec![], vec![jump.clone()], vec![nil()]);
    assert_eq!(
        lifter.lift(),
        Err(LunirError::UnsupportedInstruction(jump))
    );
}

#[test]
fn failure_keeps_the_stack_before_the_failing_instruction() {
    let code = vec![
        Instruction::Load(Box::new(Load {
            dest: 0,
            src: Value::Immediate(1),
        })),
        Instruction::Load(Box::new(Load {
            dest: 7,
            src: Value::Immediate(2),
        })),
        Instruction::Load(Box::new(Load {
            dest: 0,
            src: Value::Immediate(3),
        })),
    ];
    let mut lifter = lifter(vec![], code, vec![nil()]);
    assert_eq!(lifter.lift(), Err(LunirError::StackUnderflow(7)));
    assert_eq!(slots(&lifter.expression_stack), vec![number("1")]);
}

#[test]
fn globals() {
    let code = vec![
        Instruction::GetGlobal(Box::new(GetGlobal {
            dest: 0,
            constant: 0,
        })),
        Instruction::SetGlobal(Box::new(SetGlobal {
            src: 1,
            constant: 0,
        })),
    ];
    let mut lifter = lifter(
        vec![Constant::String("print".to_string())],
        code,
        vec![nil(), ident("v")],
    );
    let block = lifter.lift().unwrap();
    assert_eq!(
        block.body,
        vec![Statement::StatAssign(Box::new(StatAssign {
            target: Expression::GlobalSymbol(Rc::new(GlobalSymbol("print".to_string()))),
            value: ident("v"),
        }))]
    );
    assert_eq!(
        slots(&lifter.expression_stack),
        vec![string("print"), ident("v")]
    );
}

#[test]
fn errors_of_set_global() {
    let set = |src: usize, constant: usize| {
        vec![Instruction::SetGlobal(Box::new(SetGlobal { src, constant }))]
    };
    let mut no_slot = lifter(vec![], set(4, 0), vec![nil()]);
    assert_eq!(no_slot.lift(), Err(LunirError::StackUnderflow(4)));
    let mut no_constant = lifter(vec![], set(0, 2), vec![nil()]);
    assert_eq!(no_constant.lift(), Err(LunirError::ConstantOutOfRange(2)));
    let mut no_name = lifter(vec![Constant::Boolean(true)], set(0, 0), vec![nil()]);
    assert_eq!(no_name.lift(), Err(LunirError::Unimplemented));
}

#[test]
fn operations() {
    let code = vec![
        Instruction::BinaryOp(Box::new(BinaryOp {
            operator: BinaryOpKind::Concat,
            dest: 0,
            left: Value::StackIndex(1),
            right: Value::Immediate(2),
        })),
        Instruction::UnaryOp(Box::new(UnaryOp {
            operator: UnaryOpKind::Neg,
            dest: 1,
            left: Value::StackIndex(1),
        })),
        Instruction::GetTable(Box::new(GetTable {
            dest: 2,
            source: 2,
            key: Value::ConstantIndex(0),
        })),
        Instruction::NewTable(Box::new(NewTable {
            dest: 3,
            array_size: 2,
            table_size: 0,
        })),
        Instruction::NewTable(Box::new(NewTable {
            dest: 4,
            array_size: 2,
            table_size: 1,
        })),
        Instruction::Intrinsic(Box::new(Intrinsic {
            kind: IntrinsicKind::BitAnd(Value::Immediate(6), Value::Immediate(3)),
            dest: 5,
        })),
        Instruction::Intrinsic(Box::new(Intrinsic {
            kind: IntrinsicKind::BitNot(Value::Immediate(1)),
            dest: 6,
        })),
    ];
    let mut lifter = lifter(
        vec![Constant::String("key".to_string())],
        code,
        vec![nil(), ident("b"), ident("t"), nil(), nil(), nil(), nil()],
    );
    lifter.lift().unwrap();
    let builtin = |name: &str, arguments: Vec<Expression>| {
        Expression::Call(Rc::new(CallExpression {
            function: Expression::GlobalSymbol(Rc::new(GlobalSymbol(name.to_string()))),
            arguments,
            is_self: false,
        }))
    };
    assert_eq!(
        slots(&lifter.expression_stack),
        vec![
            Expression::BinaryOp(Rc::new(BinaryExpression {
                kind: BinaryExpressionKind::Concat,
                left: ident("b"),
                right: number("2"),
            })),
            Expression::UnaryOp(Rc::new(UnaryExpression {
                kind: UnaryOpKind::Neg,
                value: ident("b"),
            })),
            Expression::IndexOp(Rc::new(IndexOp {
                table: ident("t"),
                key: string("key"),
            })),
            Expression::Table(Rc::new(TableExpression::Array(vec![]))),
            Expression::Table(Rc::new(TableExpression::HashMap(vec![]))),
            builtin("bit32.band", vec![number("6"), number("3")]),
            builtin("bit32.bnot", vec![number("1")]),
        ]
    );
}

#[test]
fn intrinsic_names() {
    let names = [
        (IntrinsicKind::BitOr(Value::Nil, Value::Nil), "bit32.bor"),
        (IntrinsicKind::BitXor(Value::Nil, Value::Nil), "bit32.bxor"),
        (IntrinsicKind::LeftShift(Value::Nil, Value::Nil), "bit32.lshift"),
        (IntrinsicKind::RightShift(Value::Nil, Value::Nil), "bit32.rshift"),
    ];
    for (kind, name) in names {
        assert!(kind.is_binary() && !kind.is_unary());
        let mut stack = stack_of(vec![nil()]);
        let insn = Instruction::Intrinsic(Box::new(Intrinsic { kind, dest: 0 }));
        assert_eq!(
            lift_instruction(&function(vec![], 1), &mut stack, &insn),
            Ok(None)
        );
        match stack.get_local(0).unwrap() {
            Expression::Call(call) => {
                assert_eq!(
                    call.function,
                    Expression::GlobalSymbol(Rc::new(GlobalSymbol(name.to_string())))
                );
                assert_eq!(call.arguments, vec![nil(), nil()]);
            }
            other => panic!("not a call: {:?}", other),
        }
    }
    assert!(IntrinsicKind::BitNot(Value::Nil).is_unary());
}

#[test]
fn call_with_results_is_stored() {
    let code = vec![Instruction::Call(Box::new(Call {
        callee: 0,
        self_call: false,
        num_args: OptVariable::Number(3),
        num_returns: OptVariable::Number(1),
    }))];
    let mut lifter = lifter(vec![], code, vec![ident("f"), ident("a"), ident("b"), ident("c")]);
    let block = lifter.lift().unwrap();
    assert!(block.body.is_empty());
    assert_eq!(
        slots(&lifter.expression_stack),
        vec![
            Expression::Call(Rc::new(CallExpression {
                function: ident("f"),
                arguments: vec![ident("a"), ident("b")],
                is_self: false,
            })),
            shadow(ident("a")),
            shadow(ident("b")),
            shadow(ident("c")),
        ]
    );
}

#[test]
fn call_with_variable_results_is_emitted() {
    let code = vec![Instruction::Call(Box::new(Call {
        callee: 0,
        self_call: true,
        num_args: OptVariable::Variable,
        num_returns: OptVariable::Variable,
    }))];
    let mut lifter = lifter(vec![], code, vec![ident("f"), ident("s"), ident("a"), ident("b")]);
    let block = lifter.lift().unwrap();
    assert_eq!(
        block.body,
        vec![Expression::Call(Rc::new(CallExpression {
            function: ident("f"),
            arguments: vec![ident("a"), ident("b")],
            is_self: true,
        }))
        .to_statement()]
    );
    assert_eq!(
        slots(&lifter.expression_stack),
        vec![
            ident("f"),
            shadow(ident("s")),
            shadow(ident("a")),
            shadow(ident("b")),
        ]
    );
}

#[test]
fn errors_of_call() {
    let call = |callee: usize, n: usize| {
        vec![Instruction::Call(Box::new(Call {
            callee,
            self_call: false,
            num_args: OptVariable::Number(n),
            num_returns: OptVariable::Number(1),
        }))]
    };
    let mut no_callee = lifter(vec![], call(3, 1), vec![ident("f")]);
    assert_eq!(no_callee.lift(), Err(LunirError::StackUnderflow(3)));
    let mut no_argument = lifter(vec![], call(0, 4), vec![ident("f"), ident("a")]);
    assert_eq!(no_argument.lift(), Err(LunirError::StackUnderflow(2)));
    assert_eq!(
        slots(&no_argument.expression_stack),
        vec![ident("f"), ident("a")]
    );
    let mut short = Lifter::new(function(vec![], 5), call(0, 1), stack_of(vec![ident("f")]));
    assert_eq!(short.lift(), Err(LunirError::StackUnderflow(1)));
    let mut huge = lifter(vec![], call(0, usize::MAX), vec![ident("f")]);
    assert_eq!(huge.lift(), Err(LunirError::StackUnderflow(1)));
}

#[test]
fn table_constants() {
    let constants = vec![
        Constant::Table(Table::Array(vec![
            Value::Immediate(1),
            Value::ConstantIndex(1),
            Value::StackIndex(0),
        ])),
        Constant::String("s".to_string()),
        Constant::Table(Table::Pairs(vec![
            (Value::ConstantIndex(1), Value::Immediate(1)),
            (Value::ConstantIndex(1), Value::Immediate(2)),
        ])),
        Constant::Table(Table::Array(vec![Value::ConstantIndex(9)])),
        Constant::Table(Table::Array(vec![Value::ConstantIndex(4)])),
        Constant::Number(Number(2.5f64.to_string())),
        Constant::Nil,
        Constant::Boolean(false),
    ];
    let lifter = lifter(constants, vec![], vec![ident("a")]);
    assert_eq!(
        lifter.constant_index_to_ast(0),
        Ok(Expression::Table(Rc::new(TableExpression::Array(vec![
            number("1"),
            string("s"),
            ident("a"),
        ]))))
    );
    assert_eq!(
        lifter.constant_index_to_ast(2),
        Ok(Expression::Table(Rc::new(TableExpression::HashMap(vec![
            (string("s"), number("1")),
            (string("s"), number("2")),
        ]))))
    );
    assert_eq!(
        lifter.constant_index_to_ast(3),
        Err(LunirError::UnimplementedTableElement)
    );
    assert_eq!(
        lifter.constant_index_to_ast(4),
        Err(LunirError::UnimplementedTableElement)
    );
    assert_eq!(lifter.constant_index_to_ast(5), Ok(number("2.5")));
    assert_eq!(lifter.constant_index_to_ast(6), Ok(nil()));
    assert_eq!(
        lifter.constant_to_ast(&Constant::Boolean(false)),
        Ok(Expression::Boolean(Rc::new(Boolean(false))))
    );
    assert_eq!(
        lifter.constant_index_to_ast(8),
        Err(LunirError::ConstantOutOfRange(8))
    );
    assert_eq!(lifter.value_to_ast(&Value::Nil), Ok(nil()));
    assert_eq!(
        lifter.value_to_ast(&Value::StackIndex(1)),
        Err(LunirError::StackUnderflow(1))
    );
}

#[test]
fn expression_stack_operations() {
    let mut stack = ExpressionStack::new();
    assert_eq!(stack.len(), 0);
    assert_eq!(stack.verify_stack_index(0), Err(LunirError::StackUnderflow(0)));
    stack.push_local(ident("a"));
    stack.push_local(ident("b"));
    assert_eq!(stack.verify_stack_index(1), Ok(()));
    assert_eq!(stack.get_local(1), Ok(&ident("b")));
    assert_eq!(stack.get_local(2), Err(LunirError::StackUnderflow(2)));
    assert_eq!(stack.set_local(0, ident("c")), Ok(()));
    assert_eq!(stack.set_local(2, ident("c")), Err(LunirError::StackUnderflow(2)));
    assert_eq!(stack.shadow(1), Ok(()));
    assert_eq!(stack.shadow(2), Err(LunirError::StackUnderflow(2)));
    assert_eq!(slots(&stack), vec![ident("c"), shadow(ident("b"))]);
}

#[test]
fn tables_may_refer_to_tables() {
    let constants = vec![
        Constant::Table(Table::Array(vec![Value::ConstantIndex(1)])),
        Constant::Table(Table::Array(vec![Value::Nil])),
    ];
    let lifter = lifter(constants, vec![], vec![]);
    let inner = Expression::Table(Rc::new(TableExpression::Array(vec![nil()])));
    let outer = Expression::Table(Rc::new(TableExpression::Array(vec![inner.clone()])));
    assert_eq!(lifter.constant_index_to_ast(1), Ok(inner));
    assert_eq!(lifter.constant_index_to_ast(0), Ok(outer.clone()));
    assert_eq!(lifter.value_to_ast(&Value::ConstantIndex(0)), Ok(outer.clone()));
    let around = Constant::Table(Table::Array(vec![Value::ConstantIndex(0)]));
    assert_eq!(
        lifter.constant_to_ast(&around),
        Ok(Expression::Table(Rc::new(TableExpression::Array(vec![outer]))))
    );
}

#[test]
fn slots_can_be_replaced_in_place() {
    let mut stack = stack_of(vec![ident("a"), ident("b")]);
    *stack.get_local_mut(1).unwrap() = ident("c");
    assert_eq!(slots(&stack), vec![ident("a"), ident("c")]);
    assert_eq!(
        stack.get_local_mut(2).err(),
        Some(LunirError::StackUnderflow(2))
    );
}
