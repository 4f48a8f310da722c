//! The text of the intermediate language: each instruction as a line of
//! assembly-like text, for diagnostics.

use vstd::prelude::*;
use vstd::string::StringExecFns;

use crate::ast::identifier::{decimal, push_decimal, push_signed_decimal, signed_decimal};
use crate::il::{
    BinaryOp, BinaryOpKind, Call, Condition, ConditionKind, ConditionalJump, Constant, Function,
    GetGlobal, GetTable, IlChunk, Instruction, Intrinsic, IntrinsicKind, Jump, JumpBranch, JumpNot,
    Load, NewTable, OptVariable, Return, SetGlobal, Table, UnaryOp, UnaryOpKind, Value, Vararg,
};

verus! {

/// What `{:?}` writes for an optional string: `None`, or `Some` and in
/// parentheses the string in double quotes, escaped as Rust escapes a string
/// for debugging.
pub uninterp spec fn optional_name_text(name: Option<Seq<char>>) -> Seq<char>;

/// `format!` with `{:?}` on an optional string: the text depends on the
/// string alone.
#[verifier::external_body]
fn format_optional_name(name: &Option<String>) -> (r: String)
    ensures
        r@ == optional_name_text(
            match *name {
                Some(s) => Some(s@),
                None => None,
            },
        ),
{
    format!("{:?}", name)
}

/// An equals sign, set to the right in a field of four.
pub open spec fn gets() -> Seq<char> {
    " "@.add("   ="@).add(" "@)
}

/// The text of an operand.
pub open spec fn value_text(v: Value) -> Seq<char> {
    match v {
        Value::Nil => "nil"@,
        Value::Boolean(b) => if b {
            "true"@
        } else {
            "false"@
        },
        Value::ConstantIndex(i) => decimal(i as nat),
        Value::StackIndex(i) => decimal(i as nat),
        Value::Immediate(i) => signed_decimal(i as int),
    }
}

/// The texts of operands, separated by a comma and a space.
pub open spec fn values_text(vs: Seq<Value>) -> Seq<char>
    decreases vs.len(),
{
    if vs.len() == 0 {
        Seq::empty()
    } else if vs.len() == 1 {
        value_text(vs[0])
    } else {
        values_text(vs.drop_last()).add(", "@).add(value_text(vs.last()))
    }
}

/// The text of a pair of a keyed table: the key in square brackets, an
/// equals sign and the value.
pub open spec fn pair_text(p: (Value, Value)) -> Seq<char> {
    "["@.add(value_text(p.0)).add("]"@).add(gets()).add(value_text(p.1))
}

/// The texts of pairs, separated by a comma and a space.
pub open spec fn pairs_text(ps: Seq<(Value, Value)>) -> Seq<char>
    decreases ps.len(),
{
    if ps.len() == 0 {
        Seq::empty()
    } else if ps.len() == 1 {
        pair_text(ps[0])
    } else {
        pairs_text(ps.drop_last()).add(", "@).add(pair_text(ps.last()))
    }
}

/// The text of a table constant: its elements or pairs in braces.
pub open spec fn table_text(t: Table) -> Seq<char> {
    match t {
        Table::Array(a) => "{"@.add(values_text(a@)).add("}"@),
        Table::Pairs(m) => "{"@.add(pairs_text(m@)).add("}"@),
    }
}

/// The text of an arity tag.
pub open spec fn vararg_text(v: Vararg) -> Seq<char> {
    match v {
        Vararg::HasArg => "[[vararg::has_arg]]"@,
        Vararg::IsVararg => "[[vararg::is_vararg]]"@,
        Vararg::NeedsArg => "[[vararg::needs_arg]]"@,
    }
}

/// The text of a function: its arity tag, `fn` and its name.
pub open spec fn function_text(f: Function) -> Seq<char> {
    vararg_text(f.is_variadic).add(" fn "@).add(
        optional_name_text(
            match f.name {
                Some(s) => Some(s@),
                None => None,
            },
        ),
    )
}

/// The text of a constant.
pub open spec fn constant_text(c: Constant) -> Seq<char> {
    match c {
        Constant::Nil => "nil"@,
        Constant::Boolean(b) => if b {
            "true"@
        } else {
            "false"@
        },
        Constant::Function(f) => function_text(f),
        Constant::Number(n) => n.0@,
        Constant::String(s) => s@,
        Constant::Table(t) => table_text(t),
    }
}

/// The sign of a binary operation.
pub open spec fn binary_op_text(op: BinaryOpKind) -> Seq<char> {
    match op {
        BinaryOpKind::Add => "+"@,
        BinaryOpKind::Sub => "-"@,
        BinaryOpKind::Mul => "*"@,
        BinaryOpKind::Div => "/"@,
        BinaryOpKind::Mod => "%"@,
        BinaryOpKind::Pow => "^"@,
        BinaryOpKind::Concat => ".."@,
    }
}

/// The sign of a unary operation.
pub open spec fn unary_op_text(op: UnaryOpKind) -> Seq<char> {
    match op {
        UnaryOpKind::Len => "#"@,
        UnaryOpKind::Not => "!"@,
        UnaryOpKind::Neg => "-"@,
    }
}

/// The name of a condition.
pub open spec fn condition_kind_text(kind: ConditionKind) -> Seq<char> {
    match kind {
        ConditionKind::Eq => "eq"@,
        ConditionKind::Ge => "ge"@,
        ConditionKind::Gt => "gt"@,
        ConditionKind::Ne => "ne"@,
        ConditionKind::Lt => "lt"@,
        ConditionKind::Le => "le"@,
        ConditionKind::And => "and"@,
        ConditionKind::Or => "or"@,
    }
}

/// The text of a condition: its operands with its name between them.
pub open spec fn condition_text(c: Condition) -> Seq<char> {
    value_text(c.left).add(" "@).add(condition_kind_text(c.kind)).add(" "@).add(value_text(c.right))
}

/// The sign of a built-in.
pub open spec fn intrinsic_sign(kind: IntrinsicKind) -> Seq<char> {
    match kind {
        IntrinsicKind::BitAnd(_, _) => "&"@,
        IntrinsicKind::BitOr(_, _) => "|"@,
        IntrinsicKind::BitXor(_, _) => "^"@,
        IntrinsicKind::BitNot(_) => "!"@,
        IntrinsicKind::LeftShift(_, _) => "<<"@,
        IntrinsicKind::RightShift(_, _) => ">>"@,
    }
}

/// The text of a built-in: the sign before the operand of a unary one,
/// between the operands of a binary one.
pub open spec fn intrinsic_kind_text(kind: IntrinsicKind) -> Seq<char> {
    match kind {
        IntrinsicKind::BitNot(v) => "!"@.add(value_text(v)),
        IntrinsicKind::BitAnd(l, r) => value_text(l).add(" "@).add(intrinsic_sign(kind)).add(" "@).add(
            value_text(r),
        ),
        IntrinsicKind::BitOr(l, r) => value_text(l).add(" "@).add(intrinsic_sign(kind)).add(" "@).add(
            value_text(r),
        ),
        IntrinsicKind::BitXor(l, r) => value_text(l).add(" "@).add(intrinsic_sign(kind)).add(" "@).add(
            value_text(r),
        ),
        IntrinsicKind::LeftShift(l, r) => value_text(l).add(" "@).add(intrinsic_sign(kind)).add(
            " "@,
        ).add(value_text(r)),
        IntrinsicKind::RightShift(l, r) => value_text(l).add(" "@).add(intrinsic_sign(kind)).add(
            " "@,
        ).add(value_text(r)),
    }
}

/// The text of a count: `vararg`, or the number and `..top`.
pub open spec fn opt_variable_text(v: OptVariable) -> Seq<char> {
    match v {
        OptVariable::Variable => "vararg"@,
        OptVariable::Number(n) => decimal(n as nat).add("..top"@),
    }
}

/// The text of a branch, field by field.
pub open spec fn branch_text(b: JumpBranch) -> Seq<char> {
    "JumpBranch { start: "@.add(decimal(b.start as nat)).add(", end: "@).add(
        decimal(b.end as nat),
    ).add(", offset: "@).add(signed_decimal(b.offset as int)).add(" }"@)
}

/// The text of a load: the register, an equals sign and the operand.
pub open spec fn load_text(x: Load) -> Seq<char> {
    decimal(x.dest as nat).add(gets()).add(value_text(x.src))
}

/// The text of a fetch of a global: the register, an equals sign and the
/// index of the constant.
pub open spec fn get_global_text(x: GetGlobal) -> Seq<char> {
    decimal(x.dest as nat).add(gets()).add(decimal(x.constant as nat))
}

/// The text of a publication of a global: the index of the constant, an
/// equals sign and the register.
pub open spec fn set_global_text(x: SetGlobal) -> Seq<char> {
    decimal(x.constant as nat).add(gets()).add(decimal(x.src as nat))
}

/// The text of a table index: the register, an equals sign, and the
/// register of the table with the key in square brackets.
pub open spec fn get_table_text(x: GetTable) -> Seq<char> {
    decimal(x.dest as nat).add(gets()).add(decimal(x.source as nat)).add("["@).add(
        value_text(x.key),
    ).add("]"@)
}

/// The text of a binary operation: the register, an equals sign, and the
/// operands with the sign between them.
pub open spec fn binary_text(x: BinaryOp) -> Seq<char> {
    decimal(x.dest as nat).add(gets()).add(value_text(x.left)).add(" "@).add(
        binary_op_text(x.operator),
    ).add(" "@).add(value_text(x.right))
}

/// The text of a unary operation: the register, an equals sign, the sign
/// and the operand.
pub open spec fn unary_text(x: UnaryOp) -> Seq<char> {
    decimal(x.dest as nat).add(gets()).add(unary_op_text(x.operator)).add(value_text(x.left))
}

/// The text of a built-in applied into a register.
pub open spec fn intrinsic_text(x: Intrinsic) -> Seq<char> {
    decimal(x.dest as nat).add(gets()).add(intrinsic_kind_text(x.kind))
}

/// The text of a jump, field by field.
pub open spec fn jump_text(x: Jump) -> Seq<char> {
    "Jump { branch: "@.add(branch_text(x.branch)).add(" }"@)
}

/// The text of a jump on a false register, field by field.
pub open spec fn jump_not_text(x: JumpNot) -> Seq<char> {
    "JumpNot { branch: "@.add(branch_text(x.branch)).add(", cond: "@).add(
        decimal(x.cond as nat),
    ).add(" }"@)
}

/// A semicolon, set to the right in a field of twelve, between two spaces.
pub open spec fn remark() -> Seq<char> {
    " "@.add("           ;"@).add(" "@)
}

/// The text of a conditional jump: `jump` and the condition, the target,
/// and after a semicolon the offset.
pub open spec fn conditional_jump_text(x: ConditionalJump) -> Seq<char> {
    "jump"@.add(condition_text(x.condition)).add(" "@).add(decimal(x.branch.end as nat)).add(
        remark(),
    ).add(signed_decimal(x.branch.offset as int))
}

/// The text of a table creation: the register, an equals sign, `newtable`
/// and both sizes, and after a semicolon the sizes again.
pub open spec fn new_table_text(x: NewTable) -> Seq<char> {
    decimal(x.dest as nat).add(gets()).add("newtable "@).add(decimal(x.array_size as nat)).add(
        " "@,
    ).add(decimal(x.table_size as nat)).add(remark()).add(decimal(x.array_size as nat)).add(
        "/"@,
    ).add(decimal(x.table_size as nat))
}

/// The text of a return: `return`, the first register and the count.
pub open spec fn return_text(x: Return) -> Seq<char> {
    "return "@.add(decimal(x.result_start as nat)).add(".."@).add(decimal(x.result_count as nat))
}

/// The text of a call: the results, an equals sign, and the register of
/// the callee with the arguments in parentheses.
pub open spec fn call_text(x: Call) -> Seq<char> {
    opt_variable_text(x.num_returns).add(gets()).add(decimal(x.callee as nat)).add("("@).add(
        if x.self_call {
            "self, "@
        } else {
            ""@
        },
    ).add(opt_variable_text(x.num_args)).add(")"@)
}

/// The text of an instruction without the name of its kind.
pub open spec fn operation_text(i: Instruction) -> Seq<char> {
    match i {
        Instruction::Load(x) => load_text(*x),
        Instruction::GetGlobal(x) => get_global_text(*x),
        Instruction::SetGlobal(x) => set_global_text(*x),
        Instruction::GetTable(x) => get_table_text(*x),
        Instruction::BinaryOp(x) => binary_text(*x),
        Instruction::UnaryOp(x) => unary_text(*x),
        Instruction::Intrinsic(x) => intrinsic_text(*x),
        Instruction::Jump(x) => jump_text(*x),
        Instruction::JumpNot(x) => jump_not_text(*x),
        Instruction::ConditionalJump(x) => conditional_jump_text(*x),
        Instruction::NewTable(x) => new_table_text(*x),
        Instruction::Return(x) => return_text(*x),
        Instruction::Call(x) => call_text(*x),
    }
}

/// The name of the kind of an instruction.
pub open spec fn kind_name(i: Instruction) -> Seq<char> {
    match i {
        Instruction::Load(_) => "Load"@,
        Instruction::Intrinsic(_) => "Intrinsic"@,
        Instruction::GetGlobal(_) => "GetGlobal"@,
        Instruction::GetTable(_) => "GetTable"@,
        Instruction::BinaryOp(_) => "BinaryOp"@,
        Instruction::UnaryOp(_) => "UnaryOp"@,
        Instruction::Jump(_) => "Jump"@,
        Instruction::JumpNot(_) => "JumpNot"@,
        Instruction::ConditionalJump(_) => "ConditionalJump"@,
        Instruction::NewTable(_) => "NewTable"@,
        Instruction::Return(_) => "Return"@,
        Instruction::Call(_) => "Call"@,
        Instruction::SetGlobal(_) => "SetGlobal"@,
    }
}

/// The text of an instruction: the name of its kind and, in parentheses,
/// the text of the operation.
pub open spec fn instruction_text(i: Instruction) -> Seq<char> {
    kind_name(i).add("("@).add(operation_text(i)).add(")"@)
}

/// The text of a chunk: every instruction on a line of its own, with an
/// empty line between two instructions.
pub open spec fn chunk_text(code: Seq<Instruction>) -> Seq<char>
    decreases code.len(),
{
    if code.len() == 0 {
        Seq::empty()
    } else if code.len() == 1 {
        instruction_text(code[0]).add("\n"@)
    } else {
        chunk_text(code.drop_last()).add("\n"@).add(instruction_text(code.last())).add("\n"@)
    }
}

fn push_index(out: &mut String, n: usize)
    ensures
        final(out)@ == old(out)@.add(decimal(n as nat)),
{
    push_decimal(out, n as u64);
}

fn push_offset(out: &mut String, n: isize)
    ensures
        final(out)@ == old(out)@.add(signed_decimal(n as int)),
{
    if n < 0 {
        out.push('-');
        let magnitude: u64 = (-(n as i128)) as u64;
        push_decimal(out, magnitude);
        assert(final(out)@ =~= old(out)@.add(signed_decimal(n as int)));
    } else {
        push_decimal(out, n as u64);
    }
}

fn push_gets(out: &mut String)
    ensures
        final(out)@ == old(out)@.add(gets()),
{
    out.append(" ");
    out.append("   =");
    out.append(" ");
    assert(final(out)@ =~= old(out)@.add(gets()));
}

fn push_value(out: &mut String, v: &Value)
    ensures
        final(out)@ == old(out)@.add(value_text(*v)),
{
    match v {
        Value::Nil => out.append("nil"),
        Value::Boolean(b) => if *b {
            out.append("true")
        } else {
            out.append("false")
        },
        Value::ConstantIndex(i) => push_index(out, *i),
        Value::StackIndex(i) => push_index(out, *i),
        Value::Immediate(i) => push_signed_decimal(out, *i),
    }
}

fn push_opt_variable(out: &mut String, v: &OptVariable)
    ensures
        final(out)@ == old(out)@.add(opt_variable_text(*v)),
{
    match v {
        OptVariable::Variable => out.append("vararg"),
        OptVariable::Number(n) => {
            push_index(out, *n);
            out.append("..top");
            assert(final(out)@ =~= old(out)@.add(opt_variable_text(*v)));
        },
    }
}

fn push_condition(out: &mut String, c: &Condition)
    ensures
        final(out)@ == old(out)@.add(condition_text(*c)),
{
    push_value(out, &c.left);
    out.append(" ");
    out.append(c.kind.to_text());
    out.append(" ");
    push_value(out, &c.right);
    assert(final(out)@ =~= old(out)@.add(condition_text(*c)));
}

fn push_intrinsic(out: &mut String, kind: &IntrinsicKind)
    ensures
        final(out)@ == old(out)@.add(intrinsic_kind_text(*kind)),
{
    let sign = match kind {
        IntrinsicKind::BitAnd(_, _) => "&",
        IntrinsicKind::BitOr(_, _) => "|",
        IntrinsicKind::BitXor(_, _) => "^",
        IntrinsicKind::BitNot(_) => "!",
        IntrinsicKind::LeftShift(_, _) => "<<",
        IntrinsicKind::RightShift(_, _) => ">>",
    };
    assert(sign@ == intrinsic_sign(*kind));
    let (left, right) = match kind {
        IntrinsicKind::BitNot(v) => {
            out.append("!");
            push_value(out, v);
            assert(final(out)@ =~= old(out)@.add(intrinsic_kind_text(*kind)));
            return ;
        },
        IntrinsicKind::BitAnd(l, r) => (l, r),
        IntrinsicKind::BitOr(l, r) => (l, r),
        IntrinsicKind::BitXor(l, r) => (l, r),
        IntrinsicKind::LeftShift(l, r) => (l, r),
        IntrinsicKind::RightShift(l, r) => (l, r),
    };
    push_value(out, left);
    out.append(" ");
    out.append(sign);
    out.append(" ");
    push_value(out, right);
    assert(final(out)@ =~= old(out)@.add(intrinsic_kind_text(*kind)));
}

fn push_branch(out: &mut String, b: &JumpBranch)
    ensures
        final(out)@ == old(out)@.add(branch_text(*b)),
{
    out.append("JumpBranch { start: ");
    push_index(out, b.start);
    out.append(", end: ");
    push_index(out, b.end);
    out.append(", offset: ");
    push_offset(out, b.offset);
    out.append(" }");
    assert(final(out)@ =~= old(out)@.add(branch_text(*b)));
}

impl Value {
    /// The operand as text.
    pub fn to_text(&self) -> (r: String)
        ensures
            r@ == value_text(*self),
    {
        let mut out = String::new();
        push_value(&mut out, self);
        assert(out@ =~= value_text(*self));
        out
    }
}

impl Table {
    /// The table as text.
    pub fn to_text(&self) -> (r: String)
        ensures
            r@ == table_text(*self),
    {
        let mut out = String::new();
        out.append("{");
        match self {
            Table::Array(a) => {
                let mut i: usize = 0;
                assert(a@.take(0) =~= Seq::<Value>::empty());
                assert(out@ =~= "{"@.add(values_text(a@.take(0))));
                while i < a.len()
                    invariant
                        i <= a.len(),
                        out@ == "{"@.add(values_text(a@.take(i as int))),
                    decreases a.len() - i,
                {
                    if i > 0 {
                        out.append(", ");
                    }
                    push_value(&mut out, &a[i]);
                    proof {
                        assert(a@.take(i + 1).drop_last() =~= a@.take(i as int));
                        assert(out@ =~= "{"@.add(values_text(a@.take(i + 1))));
                    }
                    i += 1;
                }
                assert(a@.take(a.len() as int) =~= a@);
            },
            Table::Pairs(m) => {
                let mut i: usize = 0;
                assert(m@.take(0) =~= Seq::<(Value, Value)>::empty());
                assert(out@ =~= "{"@.add(pairs_text(m@.take(0))));
                while i < m.len()
                    invariant
                        i <= m.len(),
                        out@ == "{"@.add(pairs_text(m@.take(i as int))),
                    decreases m.len() - i,
                {
                    if i > 0 {
                        out.append(", ");
                    }
                    let ghost before = out@;
                    out.append("[");
                    push_value(&mut out, &m[i].0);
                    out.append("]");
                    push_gets(&mut out);
                    push_value(&mut out, &m[i].1);
                    proof {
                        assert(out@ =~= before.add(pair_text(m@[i as int])));
                        assert(m@.take(i + 1).drop_last() =~= m@.take(i as int));
                        assert(out@ =~= "{"@.add(pairs_text(m@.take(i + 1))));
                    }
                    i += 1;
                }
                assert(m@.take(m.len() as int) =~= m@);
            },
        }
        out.append("}");
        out
    }
}

impl Vararg {
    /// The arity tag as text.
    pub fn to_text(&self) -> (r: &'static str)
        ensures
            r@ == vararg_text(*self),
    {
        match self {
            Vararg::HasArg => "[[vararg::has_arg]]",
            Vararg::IsVararg => "[[vararg::is_vararg]]",
            Vararg::NeedsArg => "[[vararg::needs_arg]]",
        }
    }
}

impl Function {
    /// The function as text.
    pub fn to_text(&self) -> (r: String)
        ensures
            r@ == function_text(*self),
    {
        let mut out = String::new();
        out.append(self.is_variadic.to_text());
        out.append(" fn ");
        let name = format_optional_name(&self.name);
        out.append(name.as_str());
        assert(out@ =~= function_text(*self));
        out
    }
}

impl Constant {
    /// The constant as text.
    pub fn to_text(&self) -> (r: String)
        ensures
            r@ == constant_text(*self),
    {
        match self {
            Constant::Nil => String::from_str("nil"),
            Constant::Boolean(b) => if *b {
                String::from_str("true")
            } else {
                String::from_str("false")
            },
            Constant::Function(f) => f.to_text(),
            Constant::Number(n) => n.0.clone(),
            Constant::String(s) => s.clone(),
            Constant::Table(t) => t.to_text(),
        }
    }
}

impl BinaryOpKind {
    /// The sign of the operation.
    pub fn to_text(&self) -> (r: &'static str)
        ensures
            r@ == binary_op_text(*self),
    {
        match self {
            BinaryOpKind::Add => "+",
            BinaryOpKind::Sub => "-",
            BinaryOpKind::Mul => "*",
            BinaryOpKind::Div => "/",
            BinaryOpKind::Mod => "%",
            BinaryOpKind::Pow => "^",
            BinaryOpKind::Concat => "..",
        }
    }
}

impl UnaryOpKind {
    /// The sign of the operation.
    pub fn to_text(&self) -> (r: &'static str)
        ensures
            r@ == unary_op_text(*self),
    {
        match self {
            UnaryOpKind::Len => "#",
            UnaryOpKind::Not => "!",
            UnaryOpKind::Neg => "-",
        }
    }
}

impl ConditionKind {
    /// The name of the condition.
    pub fn to_text(&self) -> (r: &'static str)
        ensures
            r@ == condition_kind_text(*self),
    {
        match self {
            ConditionKind::Eq => "eq",
            ConditionKind::Ge => "ge",
            ConditionKind::Gt => "gt",
            ConditionKind::Ne => "ne",
            ConditionKind::Lt => "lt",
            ConditionKind::Le => "le",
            ConditionKind::And => "and",
            ConditionKind::Or => "or",
        }
    }
}

impl Condition {
    /// The condition as text.
    pub fn to_text(&self) -> (r: String)
        ensures
            r@ == condition_text(*self),
    {
        let mut out = String::new();
        push_condition(&mut out, self);
        assert(out@ =~= condition_text(*self));
        out
    }
}

impl IntrinsicKind {
    /// The built-in as text.
    pub fn to_text(&self) -> (r: String)
        ensures
            r@ == intrinsic_kind_text(*self),
    {
        let mut out = String::new();
        push_intrinsic(&mut out, self);
        assert(out@ =~= intrinsic_kind_text(*self));
        out
    }
}

impl OptVariable {
    /// The count as text.
    pub fn to_text(&self) -> (r: String)
        ensures
            r@ == opt_variable_text(*self),
    {
        let mut out = String::new();
        push_opt_variable(&mut out, self);
        assert(out@ =~= opt_variable_text(*self));
        out
    }
}

fn push_remark(out: &mut String)
    ensures
        final(out)@ == old(out)@.add(remark()),
{
    out.append(" ");
    out.append("           ;");
    out.append(" ");
    assert(final(out)@ =~= old(out)@.add(remark()));
}

fn push_load(out: &mut String, x: &Load)
    ensures
        final(out)@ == old(out)@.add(load_text(*x)),
{
    push_index(out, x.dest);
    push_gets(out);
    push_value(out, &x.src);
    assert(final(out)@ =~= old(out)@.add(load_text(*x)));
}

impl Load {
    /// The load as text.
    pub fn to_text(&self) -> (r: String)
        ensures
            r@ == load_text(*self),
    {
        let mut out = String::new();
        push_load(&mut out, self);
        assert(out@ =~= load_text(*self));
        out
    }
}

fn push_get_global(out: &mut String, x: &GetGlobal)
    ensures
        final(out)@ == old(out)@.add(get_global_text(*x)),
{
    push_index(out, x.dest);
    push_gets(out);
    push_index(out, x.constant);
    assert(final(out)@ =~= old(out)@.add(get_global_text(*x)));
}

impl GetGlobal {
    /// The fetch as text.
    pub fn to_text(&self) -> (r: String)
        ensures
            r@ == get_global_text(*self),
    {
        let mut out = String::new();
        push_get_global(&mut out, self);
        assert(out@ =~= get_global_text(*self));
        out
    }
}

fn push_set_global(out: &mut String, x: &SetGlobal)
    ensures
        final(out)@ == old(out)@.add(set_global_text(*x)),
{
    push_index(out, x.constant);
    push_gets(out);
    push_index(out, x.src);
    assert(final(out)@ =~= old(out)@.add(set_global_text(*x)));
}

impl SetGlobal {
    /// The publication as text.
    pub fn to_text(&self) -> (r: String)
        ensures
            r@ == set_global_text(*self),
    {
        let mut out = String::new();
        push_set_global(&mut out, self);
        assert(out@ =~= set_global_text(*self));
        out
    }
}

fn push_get_table(out: &mut String, x: &GetTable)
    ensures
        final(out)@ == old(out)@.add(get_table_text(*x)),
{
    push_index(out, x.dest);
    push_gets(out);
    push_index(out, x.source);
    out.append("[");
    push_value(out, &x.key);
    out.append("]");
    assert(final(out)@ =~= old(out)@.add(get_table_text(*x)));
}

impl GetTable {
    /// The index as text.
    pub fn to_text(&self) -> (r: String)
        ensures
            r@ == get_table_text(*self),
    {
        let mut out = String::new();
        push_get_table(&mut out, self);
        assert(out@ =~= get_table_text(*self));
        out
    }
}

fn push_binary(out: &mut String, x: &BinaryOp)
    ensures
        final(out)@ == old(out)@.add(binary_text(*x)),
{
    push_index(out, x.dest);
    push_gets(out);
    push_value(out, &x.left);
    out.append(" ");
    out.append(x.operator.to_text());
    out.append(" ");
    push_value(out, &x.right);
    assert(final(out)@ =~= old(out)@.add(binary_text(*x)));
}

impl BinaryOp {
    /// The operation as text.
    pub fn to_text(&self) -> (r: String)
        ensures
            r@ == binary_text(*self),
    {
        let mut out = String::new();
        push_binary(&mut out, self);
        assert(out@ =~= binary_text(*self));
        out
    }
}

fn push_unary(out: &mut String, x: &UnaryOp)
    ensures
        final(out)@ == old(out)@.add(unary_text(*x)),
{
    push_index(out, x.dest);
    push_gets(out);
    out.append(x.operator.to_text());
    push_value(out, &x.left);
    assert(final(out)@ =~= old(out)@.add(unary_text(*x)));
}

impl UnaryOp {
    /// The operation as text.
    pub fn to_text(&self) -> (r: String)
        ensures
            r@ == unary_text(*self),
    {
        let mut out = String::new();
        push_unary(&mut out, self);
        assert(out@ =~= unary_text(*self));
        out
    }
}

fn push_intrinsic_into(out: &mut String, x: &Intrinsic)
    ensures
        final(out)@ == old(out)@.add(intrinsic_text(*x)),
{
    push_index(out, x.dest);
    push_gets(out);
    push_intrinsic(out, &x.kind);
    assert(final(out)@ =~= old(out)@.add(intrinsic_text(*x)));
}

impl Intrinsic {
    /// The built-in as text.
    pub fn to_text(&self) -> (r: String)
        ensures
            r@ == intrinsic_text(*self),
    {
        let mut out = String::new();
        push_intrinsic_into(&mut out, self);
        assert(out@ =~= intrinsic_text(*self));
        out
    }
}

fn push_jump(out: &mut String, x: &Jump)
    ensures
        final(out)@ == old(out)@.add(jump_text(*x)),
{
    out.append("Jump { branch: ");
    push_branch(out, &x.branch);
    out.append(" }");
    assert(final(out)@ =~= old(out)@.add(jump_text(*x)));
}

impl Jump {
    /// The jump as text.
    pub fn to_text(&self) -> (r: String)
        ensures
            r@ == jump_text(*self),
    {
        let mut out = String::new();
        push_jump(&mut out, self);
        assert(out@ =~= jump_text(*self));
        out
    }
}

fn push_jump_not(out: &mut String, x: &JumpNot)
    ensures
        final(out)@ == old(out)@.add(jump_not_text(*x)),
{
    out.append("JumpNot { branch: ");
    push_branch(out, &x.branch);
    out.append(", cond: ");
    push_index(out, x.cond);
    out.append(" }");
    assert(final(out)@ =~= old(out)@.add(jump_not_text(*x)));
}

impl JumpNot {
    /// The jump as text.
    pub fn to_text(&self) -> (r: String)
        ensures
            r@ == jump_not_text(*self),
    {
        let mut out = String::new();
        push_jump_not(&mut out, self);
        assert(out@ =~= jump_not_text(*self));
        out
    }
}

fn push_conditional_jump(out: &mut String, x: &ConditionalJump)
    ensures
        final(out)@ == old(out)@.add(conditional_jump_text(*x)),
{
    out.append("jump");
    push_condition(out, &x.condition);
    out.append(" ");
    push_index(out, x.branch.end);
    push_remark(out);
    push_offset(out, x.branch.offset);
    assert(final(out)@ =~= old(out)@.add(conditional_jump_text(*x)));
}

impl ConditionalJump {
    /// The jump as text.
    pub fn to_text(&self) -> (r: String)
        ensures
            r@ == conditional_jump_text(*self),
    {
        let mut out = String::new();
        push_conditional_jump(&mut out, self);
        assert(out@ =~= conditional_jump_text(*self));
        out
    }
}

fn push_new_table(out: &mut String, x: &NewTable)
    ensures
        final(out)@ == old(out)@.add(new_table_text(*x)),
{
    push_index(out, x.dest);
    push_gets(out);
    out.append("newtable ");
    push_index(out, x.array_size);
    out.append(" ");
    push_index(out, x.table_size);
    push_remark(out);
    push_index(out, x.array_size);
    out.append("/");
    push_index(out, x.table_size);
    assert(final(out)@ =~= old(out)@.add(new_table_text(*x)));
}

impl NewTable {
    /// The creation as text.
    pub fn to_text(&self) -> (r: String)
        ensures
            r@ == new_table_text(*self),
    {
        let mut out = String::new();
        push_new_table(&mut out, self);
        assert(out@ =~= new_table_text(*self));
        out
    }
}

fn push_return(out: &mut String, x: &Return)
    ensures
        final(out)@ == old(out)@.add(return_text(*x)),
{
    out.append("return ");
    push_index(out, x.result_start);
    out.append("..");
    push_index(out, x.result_count);
    assert(final(out)@ =~= old(out)@.add(return_text(*x)));
}

impl Return {
    /// The return as text.
    pub fn to_text(&self) -> (r: String)
        ensures
            r@ == return_text(*self),
    {
        let mut out = String::new();
        push_return(&mut out, self);
        assert(out@ =~= return_text(*self));
        out
    }
}

fn push_call(out: &mut String, x: &Call)
    ensures
        final(out)@ == old(out)@.add(call_text(*x)),
{
    push_opt_variable(out, &x.num_returns);
    push_gets(out);
    push_index(out, x.callee);
    out.append("(");
    if x.self_call {
        out.append("self, ");
    } else {
        out.append("");
    }
    push_opt_variable(out, &x.num_args);
    out.append(")");
    assert(final(out)@ =~= old(out)@.add(call_text(*x)));
}

impl Call {
    /// The call as text.
    pub fn to_text(&self) -> (r: String)
        ensures
            r@ == call_text(*self),
    {
        let mut out = String::new();
        push_call(&mut out, self);
        assert(out@ =~= call_text(*self));
        out
    }
}

fn push_operation(out: &mut String, instruction: &Instruction)
    ensures
        final(out)@ == old(out)@.add(operation_text(*instruction)),
{
    match instruction {
        Instruction::Load(x) => push_load(out, x),
        Instruction::GetGlobal(x) => push_get_global(out, x),
        Instruction::SetGlobal(x) => push_set_global(out, x),
        Instruction::GetTable(x) => push_get_table(out, x),
        Instruction::BinaryOp(x) => push_binary(out, x),
        Instruction::UnaryOp(x) => push_unary(out, x),
        Instruction::Intrinsic(x) => push_intrinsic_into(out, x),
        Instruction::Jump(x) => push_jump(out, x),
        Instruction::JumpNot(x) => push_jump_not(out, x),
        Instruction::ConditionalJump(x) => push_conditional_jump(out, x),
        Instruction::NewTable(x) => push_new_table(out, x),
        Instruction::Return(x) => push_return(out, x),
        Instruction::Call(x) => push_call(out, x),
    }
}

fn push_instruction(out: &mut String, instruction: &Instruction)
    ensures
        final(out)@ == old(out)@.add(instruction_text(*instruction)),
{
    let name = match instruction {
        Instruction::Load(_) => "Load",
        Instruction::Intrinsic(_) => "Intrinsic",
        Instruction::GetGlobal(_) => "GetGlobal",
        Instruction::GetTable(_) => "GetTable",
        Instruction::BinaryOp(_) => "BinaryOp",
        Instruction::UnaryOp(_) => "UnaryOp",
        Instruction::Jump(_) => "Jump",
        Instruction::JumpNot(_) => "JumpNot",
        Instruction::ConditionalJump(_) => "ConditionalJump",
        Instruction::NewTable(_) => "NewTable",
        Instruction::Return(_) => "Return",
        Instruction::Call(_) => "Call",
        Instruction::SetGlobal(_) => "SetGlobal",
    };
    out.append(name);
    out.append("(");
    push_operation(out, instruction);
    out.append(")");
    assert(final(out)@ =~= old(out)@.add(instruction_text(*instruction)));
}

impl Instruction {
    /// The operation of the instruction as text, without the name of its
    /// kind: the text of what the instruction holds.
    pub fn operation_to_text(&self) -> (r: String)
        ensures
            r@ == operation_text(*self),
    {
        let mut out = String::new();
        push_operation(&mut out, self);
        assert(out@ =~= operation_text(*self));
        out
    }

    /// The instruction as text.
    pub fn to_text(&self) -> (r: String)
        ensures
            r@ == instruction_text(*self),
    {
        let mut out = String::new();
        push_instruction(&mut out, self);
        assert(out@ =~= instruction_text(*self));
        out
    }
}

impl IlChunk {
    /// The chunk as text.
    pub fn to_text(&self) -> (r: String)
        ensures
            r@ == chunk_text(self@),
    {
        let code = self.inner();
        let mut out = String::new();
        let mut i: usize = 0;
        assert(code@.take(0) =~= Seq::<Instruction>::empty());
        assert(out@ =~= chunk_text(code@.take(0)));
        while i < code.len()
            invariant
                i <= code.len(),
                code@ == self@,
                out@ == chunk_text(code@.take(i as int)),
            decreases code.len() - i,
        {
            if i > 0 {
                out.append("\n");
            }
            push_instruction(&mut out, &code[i]);
            out.append("\n");
            proof {
                assert(code@.take(i + 1).drop_last() =~= code@.take(i as int));
                assert(out@ =~= chunk_text(code@.take(i + 1)));
            }
            i += 1;
        }
        assert(code@.take(code.len() as int) =~= code@);
        out
    }
}

} // verus!
