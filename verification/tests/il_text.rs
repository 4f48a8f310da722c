use lunir::ast::expression::Number;
use lunir::il::{
    BinaryOp, BinaryOpKind, Call, Condition, ConditionKind, ConditionalJump, Constant, Function,
    GetGlobal, GetTable, IlChunk, Instruction, Intrinsic, IntrinsicKind, Jump, JumpBranch, JumpNot,
    Load, NewTable, OptVariable, Return, SetGlobal, Table, UnaryOp, UnaryOpKind, Value, Vararg,
};

fn branch() -> JumpBranch {
    JumpBranch {
        start: 3,
        end: 2,
        offset: -1,
    }
}

fn function(name: Option<&str>, is_variadic: Vararg) -> Function {
    Function {
        constants: vec![],
        code: vec![],
        is_variadic,
        lineinfo: vec![],
        name: name.map(|n| n.to_string()),
        upvalue_count: 0,
        param_count: 0,
        max_stack_size: 0,
    }
}

#[test]
fn operands_as_text() {
    assert_eq!(Value::Nil.to_text(), "nil");
    assert_eq!(Value::Boolean(true).to_text(), "true");
    assert_eq!(Value::Boolean(false).to_text(), "false");
    assert_eq!(Value::ConstantIndex(251).to_text(), "251");
    assert_eq!(Value::StackIndex(0).to_text(), "0");
    assert_eq!(Value::Immediate(-7).to_text(), "-7");
    assert_eq!(Value::StackIndex(usize::MAX).to_text(), usize::MAX.to_string());
}

#[test]
fn tables_as_text() {
    assert_eq!(Table::Array(vec![]).to_text(), "{}");
    assert_eq!(
        Table::Array(vec![Value::Immediate(1), Value::Nil, Value::Boolean(true)]).to_text(),
        "{1, nil, true}"
    );
    assert_eq!(
        Table::Pairs(vec![
            (Value::ConstantIndex(1), Value::Immediate(2)),
            (Value::ConstantIndex(1), Value::Nil),
        ])
        .to_text(),
        "{[1]    = 2, [1]    = nil}"
    );
}

#[test]
fn constants_as_text() {
    assert_eq!(Constant::Nil.to_text(), "nil");
    assert_eq!(Constant::Boolean(false).to_text(), "false");
    assert_eq!(Constant::Number(Number(1.5f64.to_string())).to_text(), "1.5");
    assert_eq!(Constant::String("text".to_string()).to_text(), "text");
    assert_eq!(Constant::Table(Table::Array(vec![Value::Nil])).to_text(), "{nil}");
    assert_eq!(
        Constant::Function(function(None, Vararg::IsVararg)).to_text(),
        "[[vararg::is_vararg]] fn None"
    );
    assert_eq!(
        function(Some("ma\"in"), Vararg::HasArg).to_text(),
        "[[vararg::has_arg]] fn Some(\"ma\\\"in\")"
    );
    assert_eq!(Vararg::NeedsArg.to_text(), "[[vararg::needs_arg]]");
}

#[test]
fn kinds_as_text() {
    let binary = [
        (BinaryOpKind::Add, "+"),
        (BinaryOpKind::Sub, "-"),
        (BinaryOpKind::Mul, "*"),
        (BinaryOpKind::Div, "/"),
        (BinaryOpKind::Mod, "%"),
        (BinaryOpKind::Pow, "^"),
        (BinaryOpKind::Concat, ".."),
    ];
    for (kind, text) in binary {
        assert_eq!(kind.to_text(), text);
    }
    assert_eq!(UnaryOpKind::Len.to_text(), "#");
    assert_eq!(UnaryOpKind::Not.to_text(), "!");
    assert_eq!(UnaryOpKind::Neg.to_text(), "-");
    let conditions = [
        (ConditionKind::Eq, "eq"),
        (ConditionKind::Ge, "ge"),
        (ConditionKind::Gt, "gt"),
        (ConditionKind::Ne, "ne"),
        (ConditionKind::Lt, "lt"),
        (ConditionKind::Le, "le"),
        (ConditionKind::And, "and"),
        (ConditionKind::Or, "or"),
    ];
    for (kind, text) in conditions {
        assert_eq!(kind.to_text(), text);
    }
    assert_eq!(OptVariable::Variable.to_text(), "vararg");
    assert_eq!(OptVariable::Number(3).to_text(), "3..top");
}

#[test]
fn intrinsics_as_text() {
    let l = Value::StackIndex(1);
    let r = Value::Immediate(2);
    assert_eq!(IntrinsicKind::BitAnd(l, r).to_text(), "1 & 2");
    assert_eq!(IntrinsicKind::BitOr(l, r).to_text(), "1 | 2");
    assert_eq!(IntrinsicKind::BitXor(l, r).to_text(), "1 ^ 2");
    assert_eq!(IntrinsicKind::LeftShift(l, r).to_text(), "1 << 2");
    assert_eq!(IntrinsicKind::RightShift(l, r).to_text(), "1 >> 2");
    assert_eq!(IntrinsicKind::BitNot(l).to_text(), "!1");
    assert_eq!(
        Intrinsic {
            kind: IntrinsicKind::BitNot(l),
            dest: 4
        }
        .to_text(),
        "4    = !1"
    );
}

#[test]
fn instructions_as_text() {
    let load = Load {
        dest: 0,
        src: Value::StackIndex(0),
    };
    assert_eq!(load.to_text(), format!("{} {:>4} {}", 0, "=", 0));
    assert_eq!(load.to_text(), "0    = 0");
    assert_eq!(
        GetGlobal {
            dest: 1,
            constant: 2
        }
        .to_text(),
        "1    = 2"
    );
    assert_eq!(SetGlobal { src: 1, constant: 2 }.to_text(), "2    = 1");
    assert_eq!(
        GetTable {
            dest: 1,
            source: 2,
            key: Value::ConstantIndex(3)
        }
        .to_text(),
        "1    = 2[3]"
    );
    assert_eq!(
        BinaryOp {
            operator: BinaryOpKind::Add,
            dest: 0,
            left: Value::ConstantIndex(0),
            right: Value::Immediate(-1),
        }
        .to_text(),
        "0    = 0 + -1"
    );
    assert_eq!(
        UnaryOp {
            operator: UnaryOpKind::Not,
            dest: 2,
            left: Value::Boolean(true)
        }
        .to_text(),
        "2    = !true"
    );
    let condition = Condition {
        kind: ConditionKind::Lt,
        left: Value::ConstantIndex(0),
        right: Value::ConstantIndex(251),
    };
    assert_eq!(condition.to_text(), "0 lt 251");
    assert_eq!(
        ConditionalJump {
            branch: branch(),
            condition
        }
        .to_text(),
        format!("jump0 lt 251 {} {:>12} {}", 2, ";", -1)
    );
    assert_eq!(
        NewTable {
            dest: 1,
            array_size: 2,
            table_size: 3
        }
        .to_text(),
        format!("1 {:>4} newtable 2 3 {:>12} 2/3", "=", ";")
    );
    assert_eq!(
        Return {
            result_start: 1,
            result_count: 2
        }
        .to_text(),
        "return 1..2"
    );
    assert_eq!(
        Call {
            callee: 1,
            self_call: true,
            num_args: OptVariable::Number(2),
            num_returns: OptVariable::Variable,
        }
        .to_text(),
        "vararg    = 1(self, 2..top)"
    );
    assert_eq!(
        Call {
            callee: 1,
            self_call: false,
            num_args: OptVariable::Variable,
            num_returns: OptVariable::Number(1),
        }
        .to_text(),
        "1..top    = 1(vararg)"
    );
    let jump = Jump { branch: branch() };
    assert_eq!(jump.to_text(), format!("{:?}", jump));
    assert_eq!(
        jump.to_text(),
        "Jump { branch: JumpBranch { start: 3, end: 2, offset: -1 } }"
    );
    let jump_not = JumpNot {
        branch: branch(),
        cond: 9,
    };
    assert_eq!(jump_not.to_text(), format!("{:?}", jump_not));
}

#[test]
fn chunk_as_text() {
    let load = Instruction::Load(Box::new(Load {
        dest: 0,
        src: Value::Nil,
    }));
    let ret = Instruction::Return(Box::new(Return {
        result_start: 0,
        result_count: 1,
    }));
    assert_eq!(load.to_text(), "Load(0    = nil)");
    assert_eq!(load.operation_to_text(), "0    = nil");
    assert_eq!(ret.to_text(), "Return(return 0..1)");
    assert_eq!(IlChunk::new(vec![]).to_text(), "");
    assert_eq!(IlChunk::new(vec![load.clone()]).to_text(), "Load(0    = nil)\n");
    assert_eq!(
        IlChunk::new(vec![load, ret]).to_text(),
        "Load(0    = nil)\n\nReturn(return 0..1)\n"
    );
    let all = vec![
        Instruction::Jump(Box::new(Jump { branch: branch() })),
        Instruction::JumpNot(Box::new(JumpNot {
            branch: branch(),
            cond: 1,
        })),
        Instruction::GetGlobal(Box::new(GetGlobal {
            dest: 1,
            constant: 2,
        })),
        Instruction::SetGlobal(Box::new(SetGlobal { src: 1, constant: 2 })),
    ];
    let first = IlChunk::new(all.clone()).to_text();
    assert_eq!(first, IlChunk::new(all).to_text());
    assert!(first.starts_with("Jump(Jump { branch: JumpBranch { start: 3, end: 2, offset: -1 } })\n\nJumpNot("));
    assert!(first.ends_with("GetGlobal(1    = 2)\n\nSetGlobal(2    = 1)\n"));
}
