//! The lifter: a symbolic interpreter that turns a straight-line instruction
//! sequence into statements, driving an expression stack that mirrors the
//! register file of the machine.

use vstd::prelude::*;
use vstd::string::StringExecFns;

use std::rc::Rc;

use crate::ast::expression::{
    BinaryExpression, BinaryExpressionKind, Boolean, CallExpression, Expression, GlobalSymbol,
    IndexOp, Nil, Number, ShadowExpression, Str, TableExpression, UnaryExpression,
};
use crate::ast::identifier::signed_decimal;
use crate::ast::statement::{StatAssign, StatBlock, StatReturn, Statement};
use crate::ast::view::{expr_view, exprs_view, pairs_view, stmts_view, ExprView, StmtView};
use crate::error::LunirError;
use crate::il::{
    BinaryOpKind, Constant, Function, Instruction, IntrinsicKind, OptVariable, Table, Value,
};

verus! {

/// An index held to the largest index of the machine.
pub open spec fn clip(i: int) -> usize {
    if i > usize::MAX {
        usize::MAX
    } else if i < 0 {
        0
    } else {
        i as usize
    }
}

/// The expression of an operand. A stack index gives what the slot holds, a
/// constant index the expression of the constant.
pub open spec fn value_ast(constants: Seq<Constant>, stack: Seq<ExprView>, v: Value, fuel: nat) -> Result<
    ExprView,
    LunirError,
>
    decreases fuel, 1nat,
{
    match v {
        Value::Nil => Ok(ExprView::Nil),
        Value::Boolean(b) => Ok(ExprView::Boolean(b)),
        Value::Immediate(i) => Ok(ExprView::Number(signed_decimal(i as int))),
        Value::ConstantIndex(i) => constant_index_ast(constants, stack, i, fuel),
        Value::StackIndex(i) => if i < stack.len() {
            Ok(stack[i as int])
        } else {
            Err(LunirError::StackUnderflow(i))
        },
    }
}

/// The expression of the constant with the given index. Looking a
/// constant up takes one unit of `fuel`, which bounds how many constants a
/// lowering passes through, one inside the other. With as much fuel as
/// there are constants, only a table that holds itself runs out of it.
pub open spec fn constant_index_ast(
    constants: Seq<Constant>,
    stack: Seq<ExprView>,
    index: usize,
    fuel: nat,
) -> Result<ExprView, LunirError>
    decreases fuel, 0nat,
{
    if index >= constants.len() {
        Err(LunirError::ConstantOutOfRange(index))
    } else if fuel == 0 {
        Err(LunirError::UnimplementedTableElement)
    } else {
        constant_ast(constants, stack, constants[index as int], (fuel - 1) as nat)
    }
}

/// The expression of a constant. A function has none yet. A table lowers
/// element by element, a keyed table pair by pair in its order; when an
/// element has no expression the table has none.
pub open spec fn constant_ast(constants: Seq<Constant>, stack: Seq<ExprView>, c: Constant, fuel: nat) -> Result<
    ExprView,
    LunirError,
>
    decreases fuel, 2nat,
{
    match c {
        Constant::Nil => Ok(ExprView::Nil),
        Constant::Boolean(b) => Ok(ExprView::Boolean(b)),
        Constant::Number(n) => Ok(ExprView::Number(n.0@)),
        Constant::String(s) => Ok(ExprView::String(s@)),
        Constant::Function(_) => Err(LunirError::Unimplemented),
        Constant::Table(Table::Array(a)) => if forall|i: int|
            0 <= i < a.len() ==> value_ast(constants, stack, #[trigger] a@[i], fuel) is Ok {
            Ok(
                ExprView::TableArray(
                    Seq::new(
                        a@.len(),
                        |i: int|
                            if 0 <= i < a@.len() {
                                value_ast(constants, stack, a@[i], fuel)->Ok_0
                            } else {
                                ExprView::Nil
                            },
                    ),
                ),
            )
        } else {
            Err(LunirError::UnimplementedTableElement)
        },
        Constant::Table(Table::Pairs(m)) => if forall|i: int|
            0 <= i < m.len() ==> value_ast(constants, stack, (#[trigger] m@[i]).0, fuel) is Ok
                && value_ast(constants, stack, m@[i].1, fuel) is Ok {
            Ok(
                ExprView::TableMap(
                    Seq::new(
                        m@.len(),
                        |i: int|
                            if 0 <= i < m@.len() {
                                (
                                    value_ast(constants, stack, m@[i].0, fuel)->Ok_0,
                                    value_ast(constants, stack, m@[i].1, fuel)->Ok_0,
                                )
                            } else {
                                (ExprView::Nil, ExprView::Nil)
                            },
                    ),
                ),
            )
        } else {
            Err(LunirError::UnimplementedTableElement)
        },
    }
}

/// The expression stack: the slots of the register file, each holding the
/// expression that stands for its value.
#[derive(Debug, Default)]
pub struct ExpressionStack(Vec<Expression>);

impl View for ExpressionStack {
    type V = Seq<ExprView>;

    closed spec fn view(&self) -> Seq<ExprView> {
        exprs_view(self.0@)
    }
}

impl ExpressionStack {
    /// A stack without slots.
    pub fn new() -> (r: Self)
        ensures
            r@ == Seq::<ExprView>::empty(),
    {
        let r = ExpressionStack(Vec::new());
        assert(r@ =~= Seq::<ExprView>::empty());
        r
    }

    /// The number of slots.
    pub fn len(&self) -> (r: usize)
        ensures
            r == self@.len(),
    {
        self.0.len()
    }

    /// Appends a slot that holds the expression.
    pub fn push_local(&mut self, expr: Expression)
        ensures
            final(self)@ == old(self)@.push(expr@),
    {
        self.0.push(expr);
        assert(self@ =~= old(self)@.push(expr@));
    }

    /// Succeeds when the stack has the slot.
    pub fn verify_stack_index(&self, index: usize) -> (r: Result<(), LunirError>)
        ensures
            r == (if index < self@.len() {
                Ok::<(), LunirError>(())
            } else {
                Err(LunirError::StackUnderflow(index))
            }),
    {
        if index >= self.0.len() {
            return Err(LunirError::StackUnderflow(index));
        }
        Ok(())
    }

    /// What the slot holds.
    pub fn get_local(&self, idx: usize) -> (r: Result<&Expression, LunirError>)
        ensures
            match r {
                Ok(e) => idx < self@.len() && e@ == self@[idx as int],
                Err(e) => idx >= self@.len() && e == LunirError::StackUnderflow(idx),
            },
    {
        if idx < self.0.len() {
            Ok(&self.0[idx])
        } else {
            Err(LunirError::StackUnderflow(idx))
        }
    }

    /// The slot, for replacing what it holds.
    pub fn get_local_mut(&mut self, idx: usize) -> (r: Result<&mut Expression, LunirError>)
        ensures
            match r {
                Ok(e) => idx < old(self)@.len() && e@ == old(self)@[idx as int] && final(self)@ == old(self)@.update(idx as int, final(e)@),
                Err(e) => idx >= old(self)@.len() && e == LunirError::StackUnderflow(idx) && final(self)@ == old(self)@,
            },
    {
        if idx < self.0.len() {
            let slot = &mut self.0[idx];
            proof {
                assert(exprs_view(old(self).0@.update(idx as int, *final(slot))) =~= old(self)@.update(
                    idx as int,
                    final(slot)@,
                ));
            }
            Ok(slot)
        } else {
            Err(LunirError::StackUnderflow(idx))
        }
    }

    /// Puts the expression into the slot.
    pub fn set_local(&mut self, idx: usize, expr: Expression) -> (r: Result<(), LunirError>)
        ensures
            match r {
                Ok(_) => idx < old(self)@.len() && final(self)@ == old(self)@.update(idx as int, expr@),
                Err(e) => idx >= old(self)@.len() && e == LunirError::StackUnderflow(idx) && final(self)@ == old(self)@,
            },
    {
        if idx < self.0.len() {
            self.0.set(idx, expr);
            assert(self@ =~= old(self)@.update(idx as int, expr@));
            Ok(())
        } else {
            Err(LunirError::StackUnderflow(idx))
        }
    }

    /// Marks what the slot holds as consumed: the slot then holds the value
    /// it held, wrapped and shadowed.
    pub fn shadow(&mut self, idx: usize) -> (r: Result<(), LunirError>)
        ensures
            match r {
                Ok(_) => idx < old(self)@.len() && final(self)@ == old(self)@.update(
                    idx as int,
                    shadowed(old(self)@[idx as int]),
                ),
                Err(e) => idx >= old(self)@.len() && e == LunirError::StackUnderflow(idx) && final(self)@ == old(self)@,
            },
    {
        if idx < self.0.len() {
            let wrapped = Expression::Shadow(
                Rc::new(ShadowExpression::new(self.0[idx].share()).shadow(true)),
            );
            self.0.set(idx, wrapped);
            assert(self@ =~= old(self)@.update(idx as int, shadowed(old(self)@[idx as int])));
            Ok(())
        } else {
            Err(LunirError::StackUnderflow(idx))
        }
    }
}

/// A value that has been consumed: wrapped and shadowed.
pub open spec fn shadowed(e: ExprView) -> ExprView {
    ExprView::Shadow { value: Box::new(e), is_shadowed: true }
}

/// The operator of the syntax tree for an operation of the machine.
pub open spec fn binary_kind(op: BinaryOpKind) -> BinaryExpressionKind {
    match op {
        BinaryOpKind::Add => BinaryExpressionKind::Add,
        BinaryOpKind::Sub => BinaryExpressionKind::Sub,
        BinaryOpKind::Mul => BinaryExpressionKind::Mul,
        BinaryOpKind::Div => BinaryExpressionKind::Div,
        BinaryOpKind::Mod => BinaryExpressionKind::Mod,
        BinaryOpKind::Pow => BinaryExpressionKind::Pow,
        BinaryOpKind::Concat => BinaryExpressionKind::Concat,
    }
}

/// The global under which a built-in is called.
pub open spec fn intrinsic_name(kind: IntrinsicKind) -> Seq<char> {
    match kind {
        IntrinsicKind::BitAnd(_, _) => "bit32.band"@,
        IntrinsicKind::BitOr(_, _) => "bit32.bor"@,
        IntrinsicKind::BitXor(_, _) => "bit32.bxor"@,
        IntrinsicKind::BitNot(_) => "bit32.bnot"@,
        IntrinsicKind::LeftShift(_, _) => "bit32.lshift"@,
        IntrinsicKind::RightShift(_, _) => "bit32.rshift"@,
    }
}

/// The operands that a built-in captures, in their order.
pub open spec fn intrinsic_operands(kind: IntrinsicKind) -> Seq<Value> {
    match kind {
        IntrinsicKind::BitAnd(l, r) => seq![l, r],
        IntrinsicKind::BitOr(l, r) => seq![l, r],
        IntrinsicKind::BitXor(l, r) => seq![l, r],
        IntrinsicKind::BitNot(v) => seq![v],
        IntrinsicKind::LeftShift(l, r) => seq![l, r],
        IntrinsicKind::RightShift(l, r) => seq![l, r],
    }
}

/// The stack with every slot from `from` up to `to` shadowed.
pub open spec fn shadow_range(stack: Seq<ExprView>, from: int, to: int) -> Seq<ExprView> {
    Seq::new(
        stack.len(),
        |i: int|
            if from <= i < to {
                shadowed(stack[i])
            } else {
                stack[i]
            },
    )
}

/// The first slot from `from` up to `to` that a stack of the given length
/// lacks, if it lacks any.
pub open spec fn missing_slot(len: int, from: int, to: int) -> Option<usize> {
    if from < to && to > len {
        Some(
            clip(
                if from > len {
                    from
                } else {
                    len
                },
            ),
        )
    } else {
        None
    }
}

/// What a step gives: the stack after it and the statement it emits, if any.
pub type StepResult = Result<(Seq<ExprView>, Option<StmtView>), LunirError>;

/// Writes a value into a slot. The slot is verified first; then the error of
/// the value, if it has one, is the result.
pub open spec fn write_slot(stack: Seq<ExprView>, dest: usize, value: Result<ExprView, LunirError>) -> StepResult {
    if dest >= stack.len() {
        Err(LunirError::StackUnderflow(dest))
    } else {
        match value {
            Ok(e) => Ok((stack.update(dest as int, e), None)),
            Err(x) => Err(x),
        }
    }
}

/// The expression of a table index: the table in a slot, under a key.
pub open spec fn index_ast(stack: Seq<ExprView>, source: usize, key: Result<ExprView, LunirError>) -> Result<
    ExprView,
    LunirError,
> {
    if source >= stack.len() {
        Err(LunirError::StackUnderflow(source))
    } else {
        match key {
            Ok(k) => Ok(ExprView::IndexOp { table: Box::new(stack[source as int]), key: Box::new(k) }),
            Err(x) => Err(x),
        }
    }
}

/// The expression of a binary operation; the left operand is lowered first.
pub open spec fn binary_ast(
    kind: BinaryExpressionKind,
    left: Result<ExprView, LunirError>,
    right: Result<ExprView, LunirError>,
) -> Result<ExprView, LunirError> {
    match left {
        Err(x) => Err(x),
        Ok(l) => match right {
            Err(x) => Err(x),
            Ok(r) => Ok(ExprView::BinaryOp { kind, left: Box::new(l), right: Box::new(r) }),
        },
    }
}

/// The call of a built-in on its operands; the operands are lowered in
/// their order.
pub open spec fn intrinsic_ast(constants: Seq<Constant>, stack: Seq<ExprView>, kind: IntrinsicKind) -> Result<
    ExprView,
    LunirError,
> {
    let operands = intrinsic_operands(kind);
    let fuel = constants.len();
    let first = value_ast(constants, stack, operands[0], fuel);
    match first {
        Err(x) => Err(x),
        Ok(a) => if operands.len() == 1 {
            Ok(
                ExprView::Call {
                    function: Box::new(ExprView::GlobalSymbol(intrinsic_name(kind))),
                    arguments: seq![a],
                    is_self: false,
                },
            )
        } else {
            match value_ast(constants, stack, operands[1], fuel) {
                Err(x) => Err(x),
                Ok(b) => Ok(
                    ExprView::Call {
                        function: Box::new(ExprView::GlobalSymbol(intrinsic_name(kind))),
                        arguments: seq![a, b],
                        is_self: false,
                    },
                ),
            }
        },
    }
}

/// The step of a call. The callee is read from its slot. The arguments are
/// the slots after the callee, and after the receiver of a self call, up to
/// `callee + n` for a count `n`, or through the top of the register file for
/// a variable count. Every slot from the callee, or from after it for a self
/// call, through the top of the register file is then shadowed. A call with
/// variable results is emitted as a statement; any other call is stored in
/// the slot of the callee.
pub open spec fn call_step(max_stack: int, stack: Seq<ExprView>, c: crate::il::Call) -> StepResult {
    let own: int = if c.self_call {
        1
    } else {
        0
    };
    let first = c.callee + 1 + own;
    let end = match c.num_args {
        OptVariable::Number(n) => c.callee + n,
        OptVariable::Variable => max_stack,
    };
    if c.callee >= stack.len() {
        Err(LunirError::StackUnderflow(c.callee))
    } else if missing_slot(stack.len() as int, first, end) is Some {
        Err(LunirError::StackUnderflow(missing_slot(stack.len() as int, first, end)->Some_0))
    } else if missing_slot(stack.len() as int, c.callee + own, max_stack) is Some {
        Err(
            LunirError::StackUnderflow(
                missing_slot(stack.len() as int, c.callee + own, max_stack)->Some_0,
            ),
        )
    } else {
        let arguments = if first < end {
            stack.subrange(first, end)
        } else {
            Seq::empty()
        };
        let call = ExprView::Call {
            function: Box::new(stack[c.callee as int]),
            arguments,
            is_self: c.self_call,
        };
        let after = shadow_range(stack, c.callee + own, max_stack);
        match c.num_returns {
            OptVariable::Variable => Ok((after, Some(StmtView::Expr(call)))),
            OptVariable::Number(_) => Ok((after.update(c.callee as int, call), None)),
        }
    }
}

/// The step of a return. The last slot returned, `result_start +
/// result_count - 1`, is verified. The results are the slots from
/// `result_start` on, `result_count` of them. Every slot after
/// `result_start` through the top of the register file is then shadowed.
pub open spec fn return_step(max_stack: int, stack: Seq<ExprView>, r: crate::il::Return) -> StepResult {
    let last = r.result_start + r.result_count - 1;
    if last >= stack.len() {
        Err(LunirError::StackUnderflow(clip(last)))
    } else if missing_slot(stack.len() as int, r.result_start + 1, max_stack) is Some {
        Err(
            LunirError::StackUnderflow(
                missing_slot(stack.len() as int, r.result_start + 1, max_stack)->Some_0,
            ),
        )
    } else {
        Ok(
            (
                shadow_range(stack, r.result_start + 1, max_stack),
                Some(
                    StmtView::Return(
                        stack.subrange(r.result_start as int, r.result_start + r.result_count),
                    ),
                ),
            ),
        )
    }
}

/// The step of publishing a global: the slot is verified, then the
/// constant; a constant that is a string names the global, any other has no
/// expression as a target yet.
pub open spec fn set_global_step(constants: Seq<Constant>, stack: Seq<ExprView>, s: crate::il::SetGlobal) -> StepResult {
    if s.src >= stack.len() {
        Err(LunirError::StackUnderflow(s.src))
    } else if s.constant >= constants.len() {
        Err(LunirError::ConstantOutOfRange(s.constant))
    } else {
        match constants[s.constant as int] {
            Constant::String(name) => Ok(
                (
                    stack,
                    Some(
                        StmtView::Assign {
                            target: ExprView::GlobalSymbol(name@),
                            value: stack[s.src as int],
                        },
                    ),
                ),
            ),
            _ => Err(LunirError::Unimplemented),
        }
    }
}

/// What one instruction does to the stack and what it emits. Jumps are not
/// lifted.
#[verifier::opaque]
pub open spec fn lift_step(constants: Seq<Constant>, max_stack: int, stack: Seq<ExprView>, instruction: Instruction) -> StepResult {
    let fuel = constants.len();
    match instruction {
        Instruction::Load(i) => write_slot(stack, i.dest, value_ast(constants, stack, i.src, fuel)),
        Instruction::GetGlobal(i) => write_slot(
            stack,
            i.dest,
            constant_index_ast(constants, stack, i.constant, fuel),
        ),
        Instruction::SetGlobal(i) => set_global_step(constants, stack, *i),
        Instruction::GetTable(i) => write_slot(
            stack,
            i.dest,
            index_ast(stack, i.source, value_ast(constants, stack, i.key, fuel)),
        ),
        Instruction::BinaryOp(i) => write_slot(
            stack,
            i.dest,
            binary_ast(
                binary_kind(i.operator),
                value_ast(constants, stack, i.left, fuel),
                value_ast(constants, stack, i.right, fuel),
            ),
        ),
        Instruction::UnaryOp(i) => write_slot(
            stack,
            i.dest,
            match value_ast(constants, stack, i.left, fuel) {
                Ok(v) => Ok(ExprView::UnaryOp { kind: i.operator, value: Box::new(v) }),
                Err(x) => Err(x),
            },
        ),
        Instruction::Intrinsic(i) => write_slot(stack, i.dest, intrinsic_ast(constants, stack, i.kind)),
        Instruction::NewTable(i) => write_slot(
            stack,
            i.dest,
            Ok(
                if i.array_size > 0 && i.table_size == 0 {
                    ExprView::TableArray(Seq::empty())
                } else {
                    ExprView::TableMap(Seq::empty())
                },
            ),
        ),
        Instruction::Call(i) => call_step(max_stack, stack, *i),
        Instruction::Return(i) => return_step(max_stack, stack, *i),
        _ => Err(LunirError::UnsupportedInstruction(instruction)),
    }
}

/// How lifting ends: with the stack and the statements, or with the error
/// of the first instruction that fails and the stack as it stood before it.
pub enum LiftOutcome {
    Lifted { stack: Seq<ExprView>, body: Seq<StmtView> },
    Failed { error: LunirError, stack: Seq<ExprView> },
}

/// Lifting the instructions one after the other from the given stack.
pub open spec fn lift_all(constants: Seq<Constant>, max_stack: int, stack: Seq<ExprView>, code: Seq<Instruction>) -> LiftOutcome
    decreases code.len(),
{
    if code.len() == 0 {
        LiftOutcome::Lifted { stack, body: Seq::empty() }
    } else {
        match lift_all(constants, max_stack, stack, code.drop_last()) {
            LiftOutcome::Failed { error, stack } => LiftOutcome::Failed { error, stack },
            LiftOutcome::Lifted { stack: before, body } => match lift_step(
                constants,
                max_stack,
                before,
                code.last(),
            ) {
                Err(error) => LiftOutcome::Failed { error, stack: before },
                Ok((after, None)) => LiftOutcome::Lifted { stack: after, body },
                Ok((after, Some(statement))) => LiftOutcome::Lifted {
                    stack: after,
                    body: body.push(statement),
                },
            },
        }
    }
}

/// Whether an expression was lowered as the model says.
pub open spec fn lowered(r: Result<Expression, LunirError>, model: Result<ExprView, LunirError>) -> bool {
    match r {
        Ok(e) => model == Ok::<ExprView, LunirError>(e@),
        Err(x) => model == Err::<ExprView, LunirError>(x),
    }
}

fn value_to_ast_within(constants: &Vec<Constant>, stack: &ExpressionStack, value: &Value, fuel: usize) -> (r:
    Result<Expression, LunirError>)
    ensures
        lowered(r, value_ast(constants@, stack@, *value, fuel as nat)),
    decreases fuel, 1nat,
{
    match *value {
        Value::Nil => Ok(Expression::Nil(Rc::new(Nil))),
        Value::Boolean(b) => Ok(Expression::Boolean(Rc::new(Boolean(b)))),
        Value::Immediate(i) => Ok(Expression::Number(Rc::new(Number::from_i32(i)))),
        Value::ConstantIndex(i) => constant_index_to_ast_within(constants, stack, i, fuel),
        Value::StackIndex(i) => match stack.get_local(i) {
            Ok(e) => Ok(e.share()),
            Err(x) => Err(x),
        },
    }
}

fn constant_index_to_ast_within(constants: &Vec<Constant>, stack: &ExpressionStack, index: usize, fuel: usize) -> (r:
    Result<Expression, LunirError>)
    ensures
        lowered(r, constant_index_ast(constants@, stack@, index, fuel as nat)),
    decreases fuel, 0nat,
{
    if index >= constants.len() {
        Err(LunirError::ConstantOutOfRange(index))
    } else if fuel == 0 {
        Err(LunirError::UnimplementedTableElement)
    } else {
        constant_to_ast_within(constants, stack, &constants[index], fuel - 1)
    }
}

#[verifier::loop_isolation(false)]
fn constant_to_ast_within(constants: &Vec<Constant>, stack: &ExpressionStack, constant: &Constant, fuel: usize) -> (r:
    Result<Expression, LunirError>)
    ensures
        lowered(r, constant_ast(constants@, stack@, *constant, fuel as nat)),
    decreases fuel, 2nat,
{
    match constant {
        Constant::Nil => Ok(Expression::Nil(Rc::new(Nil))),
        Constant::Boolean(b) => Ok(Expression::Boolean(Rc::new(Boolean(*b)))),
        Constant::Number(n) => Ok(Expression::Number(Rc::new(Number(n.0.clone())))),
        Constant::String(s) => Ok(Expression::String(Rc::new(Str(s.clone())))),
        Constant::Function(_) => Err(LunirError::Unimplemented),
        Constant::Table(Table::Array(a)) => {
            let mut out: Vec<Expression> = Vec::new();
            let mut i: usize = 0;
            while i < a.len()
                invariant
                    i <= a.len(),
                    out@.len() == i,
                    forall|k: int|
                        0 <= k < i ==> value_ast(constants@, stack@, #[trigger] a@[k], fuel as nat)
                            == Ok::<ExprView, LunirError>(out@[k]@),
                decreases a.len() - i,
            {
                match value_to_ast_within(constants, stack, &a[i], fuel) {
                    Ok(e) => {
                        out.push(e);
                    },
                    Err(_) => {
                        assert(!(value_ast(constants@, stack@, a@[i as int], fuel as nat) is Ok));
                        return Err(LunirError::UnimplementedTableElement);
                    },
                }
                i += 1;
            }
            let ghost model = constant_ast(constants@, stack@, *constant, fuel as nat);
            assert(model is Ok);
            assert(exprs_view(out@) =~= model->Ok_0->TableArray_0);
            Ok(Expression::Table(Rc::new(TableExpression::Array(out))))
        },
        Constant::Table(Table::Pairs(m)) => {
            let mut out: Vec<(Expression, Expression)> = Vec::new();
            let mut i: usize = 0;
            while i < m.len()
                invariant
                    i <= m.len(),
                    out@.len() == i,
                    forall|k: int|
                        0 <= k < i ==> value_ast(
                            constants@,
                            stack@,
                            (#[trigger] m@[k]).0,
                            fuel as nat,
                        ) == Ok::<ExprView, LunirError>(out@[k].0@) && value_ast(
                            constants@,
                            stack@,
                            m@[k].1,
                            fuel as nat,
                        ) == Ok::<ExprView, LunirError>(out@[k].1@),
                decreases m.len() - i,
            {
                let key = match value_to_ast_within(constants, stack, &m[i].0, fuel) {
                    Ok(e) => e,
                    Err(_) => {
                        assert(!(value_ast(constants@, stack@, m@[i as int].0, fuel as nat) is Ok));
                        return Err(LunirError::UnimplementedTableElement);
                    },
                };
                let value = match value_to_ast_within(constants, stack, &m[i].1, fuel) {
                    Ok(e) => e,
                    Err(_) => {
                        assert(!(value_ast(constants@, stack@, m@[i as int].1, fuel as nat) is Ok));
                        return Err(LunirError::UnimplementedTableElement);
                    },
                };
                out.push((key, value));
                i += 1;
            }
            let ghost model = constant_ast(constants@, stack@, *constant, fuel as nat);
            assert(model is Ok);
            assert(pairs_view(out@) =~= model->Ok_0->TableMap_0);
            Ok(Expression::Table(Rc::new(TableExpression::HashMap(out))))
        },
    }
}

fn binary_kind_of(op: BinaryOpKind) -> (r: BinaryExpressionKind)
    ensures
        r == binary_kind(op),
{
    match op {
        BinaryOpKind::Add => BinaryExpressionKind::Add,
        BinaryOpKind::Sub => BinaryExpressionKind::Sub,
        BinaryOpKind::Mul => BinaryExpressionKind::Mul,
        BinaryOpKind::Div => BinaryExpressionKind::Div,
        BinaryOpKind::Mod => BinaryExpressionKind::Mod,
        BinaryOpKind::Pow => BinaryExpressionKind::Pow,
        BinaryOpKind::Concat => BinaryExpressionKind::Concat,
    }
}

fn intrinsic_symbol(kind: &IntrinsicKind) -> (r: String)
    ensures
        r@ == intrinsic_name(*kind),
{
    match kind {
        IntrinsicKind::BitAnd(_, _) => String::from_str("bit32.band"),
        IntrinsicKind::BitOr(_, _) => String::from_str("bit32.bor"),
        IntrinsicKind::BitXor(_, _) => String::from_str("bit32.bxor"),
        IntrinsicKind::BitNot(_) => String::from_str("bit32.bnot"),
        IntrinsicKind::LeftShift(_, _) => String::from_str("bit32.lshift"),
        IntrinsicKind::RightShift(_, _) => String::from_str("bit32.rshift"),
    }
}

fn intrinsic_to_ast(constants: &Vec<Constant>, stack: &ExpressionStack, kind: &IntrinsicKind) -> (r: Result<
    Expression,
    LunirError,
>)
    ensures
        lowered(r, intrinsic_ast(constants@, stack@, *kind)),
{
    let fuel = constants.len();
    let (first, second) = match kind {
        IntrinsicKind::BitAnd(l, r) => (*l, Some(*r)),
        IntrinsicKind::BitOr(l, r) => (*l, Some(*r)),
        IntrinsicKind::BitXor(l, r) => (*l, Some(*r)),
        IntrinsicKind::BitNot(v) => (*v, None),
        IntrinsicKind::LeftShift(l, r) => (*l, Some(*r)),
        IntrinsicKind::RightShift(l, r) => (*l, Some(*r)),
    };
    assert(intrinsic_operands(*kind)[0] == first);
    assert(match second {
        Some(v) => intrinsic_operands(*kind) == seq![first, v],
        None => intrinsic_operands(*kind) == seq![first],
    });
    let mut arguments: Vec<Expression> = Vec::new();
    match value_to_ast_within(constants, stack, &first, fuel) {
        Ok(e) => {
            arguments.push(e);
        },
        Err(x) => {
            return Err(x);
        },
    }
    match second {
        Some(v) => match value_to_ast_within(constants, stack, &v, fuel) {
            Ok(e) => {
                arguments.push(e);
            },
            Err(x) => {
                return Err(x);
            },
        },
        None => {},
    }
    let function = Expression::GlobalSymbol(Rc::new(GlobalSymbol(intrinsic_symbol(kind))));
    assert(function@ == ExprView::GlobalSymbol(intrinsic_name(*kind)));
    let ghost model = intrinsic_ast(constants@, stack@, *kind);
    assert(model is Ok);
    assert(exprs_view(arguments@) =~= model->Ok_0->Call_arguments);
    Ok(Expression::Call(Rc::new(CallExpression { arguments, function, is_self: false })))
}

fn clip_index(i: u128) -> (r: usize)
    ensures
        r == clip(i as int),
{
    if i > usize::MAX as u128 {
        usize::MAX
    } else {
        i as usize
    }
}

fn find_missing_slot(len: usize, from: u128, to: u128) -> (r: Option<usize>)
    ensures
        r == missing_slot(len as int, from as int, to as int),
{
    if from < to && to > len as u128 {
        Some(
            clip_index(
                if from > len as u128 {
                    from
                } else {
                    len as u128
                },
            ),
        )
    } else {
        None
    }
}

fn shadow_slots(stack: &mut ExpressionStack, from: usize, to: usize)
    requires
        to <= old(stack)@.len(),
    ensures
        final(stack)@ == shadow_range(old(stack)@, from as int, to as int),
{
    let mut i: usize = from;
    assert(stack@ =~= shadow_range(old(stack)@, from as int, i as int));
    while i < to
        invariant
            from <= i,
            i <= to || i == from,
            to <= stack@.len(),
            stack@ == shadow_range(old(stack)@, from as int, i as int),
        decreases to - i,
    {
        let _ = stack.shadow(i);
        assert(stack@ =~= shadow_range(old(stack)@, from as int, i + 1));
        i += 1;
    }
    assert(shadow_range(old(stack)@, from as int, i as int) =~= shadow_range(
        old(stack)@,
        from as int,
        to as int,
    ));
}

fn collect_slots(stack: &ExpressionStack, from: usize, to: usize) -> (r: Vec<Expression>)
    requires
        from <= to <= stack@.len(),
    ensures
        exprs_view(r@) == stack@.subrange(from as int, to as int),
{
    let mut out: Vec<Expression> = Vec::new();
    let mut i: usize = from;
    while i < to
        invariant
            from <= i <= to <= stack@.len(),
            exprs_view(out@) == stack@.subrange(from as int, i as int),
        decreases to - i,
    {
        match stack.get_local(i) {
            Ok(e) => {
                let ghost before = exprs_view(out@);
                out.push(e.share());
                assert(exprs_view(out@) =~= before.push(stack@[i as int]));
                assert(exprs_view(out@) =~= stack@.subrange(from as int, i + 1));
            },
            Err(_) => {},
        }
        i += 1;
    }
    out
}

/// Whether a step ended as the model says: on success the stack is the one
/// after the step and the statement the one emitted; on failure the error
/// is the one of the model and the stack is as it was.
pub open spec fn stepped(
    r: Result<Option<Statement>, LunirError>,
    before: Seq<ExprView>,
    after: Seq<ExprView>,
    model: StepResult,
) -> bool {
    match r {
        Ok(Some(statement)) => model == Ok::<(Seq<ExprView>, Option<StmtView>), LunirError>(
            (after, Some(statement@)),
        ),
        Ok(None) => model == Ok::<(Seq<ExprView>, Option<StmtView>), LunirError>((after, None)),
        Err(x) => model == Err::<(Seq<ExprView>, Option<StmtView>), LunirError>(x) && after == before,
    }
}

fn write_to_slot(stack: &mut ExpressionStack, dest: usize, value: Result<Expression, LunirError>, Ghost(model): Ghost<
    Result<ExprView, LunirError>,
>) -> (r: Result<Option<Statement>, LunirError>)
    requires
        old(stack)@.len() > dest ==> lowered(value, model),
    ensures
        stepped(r, old(stack)@, final(stack)@, write_slot(old(stack)@, dest, model)),
{
    if dest >= stack.len() {
        return Err(LunirError::StackUnderflow(dest));
    }
    match value {
        Ok(e) => {
            let _ = stack.set_local(dest, e);
            Ok(None)
        },
        Err(x) => Err(x),
    }
}

fn lift_call(max_stack: usize, stack: &mut ExpressionStack, c: &crate::il::Call) -> (r: Result<
    Option<Statement>,
    LunirError,
>)
    ensures
        stepped(r, old(stack)@, final(stack)@, call_step(max_stack as int, old(stack)@, *c)),
{
    let len = stack.len();
    if c.callee >= len {
        return Err(LunirError::StackUnderflow(c.callee));
    }
    let own: u128 = if c.self_call {
        1
    } else {
        0
    };
    let first: u128 = c.callee as u128 + 1 + own;
    let end: u128 = match c.num_args {
        OptVariable::Number(n) => c.callee as u128 + n as u128,
        OptVariable::Variable => max_stack as u128,
    };
    match find_missing_slot(len, first, end) {
        Some(slot) => {
            return Err(LunirError::StackUnderflow(slot));
        },
        None => {},
    }
    match find_missing_slot(len, c.callee as u128 + own, max_stack as u128) {
        Some(slot) => {
            return Err(LunirError::StackUnderflow(slot));
        },
        None => {},
    }
    let arguments = if first < end {
        collect_slots(stack, first as usize, end as usize)
    } else {
        let none: Vec<Expression> = Vec::new();
        assert(exprs_view(none@) =~= Seq::<ExprView>::empty());
        none
    };
    let function = match stack.get_local(c.callee) {
        Ok(e) => e.share(),
        Err(x) => {
            return Err(x);
        },
    };
    let call = Expression::Call(Rc::new(CallExpression { arguments, function, is_self: c.self_call }));
    let from: usize = (c.callee as u128 + own) as usize;
    if from < max_stack {
        shadow_slots(stack, from, max_stack);
    } else {
        assert(stack@ =~= shadow_range(old(stack)@, from as int, max_stack as int));
    }
    match c.num_returns {
        OptVariable::Variable => Ok(Some(call.to_statement())),
        OptVariable::Number(_) => {
            let _ = stack.set_local(c.callee, call);
            Ok(None)
        },
    }
}

fn lift_return(max_stack: usize, stack: &mut ExpressionStack, r: &crate::il::Return) -> (out: Result<
    Option<Statement>,
    LunirError,
>)
    ensures
        stepped(out, old(stack)@, final(stack)@, return_step(max_stack as int, old(stack)@, *r)),
{
    let len = stack.len();
    let past: u128 = r.result_start as u128 + r.result_count as u128;
    if past > len as u128 + 1 || (past == len as u128 + 1) {
        return Err(LunirError::StackUnderflow(clip_index((past - 1) as u128)));
    }
    match find_missing_slot(len, r.result_start as u128 + 1, max_stack as u128) {
        Some(slot) => {
            return Err(LunirError::StackUnderflow(slot));
        },
        None => {},
    }
    let results = if past == 0 {
        let none: Vec<Expression> = Vec::new();
        assert(exprs_view(none@) =~= old(stack)@.subrange(0, 0));
        none
    } else {
        collect_slots(stack, r.result_start, past as usize)
    };
    if r.result_start < len && r.result_start + 1 < max_stack {
        shadow_slots(stack, r.result_start + 1, max_stack);
    } else {
        assert(stack@ =~= shadow_range(old(stack)@, r.result_start + 1, max_stack as int));
    }
    Ok(Some(Statement::StatReturn(Box::new(StatReturn { results }))))
}

fn lift_set_global(constants: &Vec<Constant>, stack: &ExpressionStack, s: &crate::il::SetGlobal) -> (r: Result<
    Option<Statement>,
    LunirError,
>)
    ensures
        stepped(r, stack@, stack@, set_global_step(constants@, stack@, *s)),
{
    let value = match stack.get_local(s.src) {
        Ok(e) => e.share(),
        Err(x) => {
            return Err(x);
        },
    };
    if s.constant >= constants.len() {
        return Err(LunirError::ConstantOutOfRange(s.constant));
    }
    match &constants[s.constant] {
        Constant::String(name) => {
            let target = Expression::GlobalSymbol(Rc::new(GlobalSymbol(name.clone())));
            Ok(Some(Statement::StatAssign(Box::new(StatAssign { target, value }))))
        },
        _ => Err(LunirError::Unimplemented),
    }
}

/// Lifts one instruction: changes the stack and gives the statement that
/// the instruction emits, if any. When the instruction fails the stack
/// stays as it was.
pub fn lift_instruction(function: &Function, stack: &mut ExpressionStack, instruction: &Instruction) -> (r: Result<
    Option<Statement>,
    LunirError,
>)
    ensures
        stepped(
            r,
            old(stack)@,
            final(stack)@,
            lift_step(function.constants@, function.max_stack_size as int, old(stack)@, *instruction),
        ),
{
    let constants = &function.constants;
    let fuel = constants.len();
    let max_stack = function.max_stack_size as usize;
    reveal(lift_step);
    match instruction {
        Instruction::Load(i) => {
            let value = value_to_ast_within(constants, stack, &i.src, fuel);
            write_to_slot(stack, i.dest, value, Ghost(value_ast(constants@, old(stack)@, i.src, fuel as nat)))
        },
        Instruction::GetGlobal(i) => {
            let value = constant_index_to_ast_within(constants, stack, i.constant, fuel);
            write_to_slot(
                stack,
                i.dest,
                value,
                Ghost(constant_index_ast(constants@, old(stack)@, i.constant, fuel as nat)),
            )
        },
        Instruction::SetGlobal(i) => lift_set_global(constants, stack, i),
        Instruction::GetTable(i) => {
            let value = match stack.get_local(i.source) {
                Err(x) => Err(x),
                Ok(table) => match value_to_ast_within(constants, stack, &i.key, fuel) {
                    Err(x) => Err(x),
                    Ok(key) => Ok(
                        Expression::IndexOp(Rc::new(IndexOp { key, table: table.share() })),
                    ),
                },
            };
            write_to_slot(
                stack,
                i.dest,
                value,
                Ghost(
                    index_ast(
                        old(stack)@,
                        i.source,
                        value_ast(constants@, old(stack)@, i.key, fuel as nat),
                    ),
                ),
            )
        },
        Instruction::BinaryOp(i) => {
            let value = match value_to_ast_within(constants, stack, &i.left, fuel) {
                Err(x) => Err(x),
                Ok(left) => match value_to_ast_within(constants, stack, &i.right, fuel) {
                    Err(x) => Err(x),
                    Ok(right) => Ok(
                        Expression::BinaryOp(
                            Rc::new(BinaryExpression { kind: binary_kind_of(i.operator), left, right }),
                        ),
                    ),
                },
            };
            write_to_slot(
                stack,
                i.dest,
                value,
                Ghost(
                    binary_ast(
                        binary_kind(i.operator),
                        value_ast(constants@, old(stack)@, i.left, fuel as nat),
                        value_ast(constants@, old(stack)@, i.right, fuel as nat),
                    ),
                ),
            )
        },
        Instruction::UnaryOp(i) => {
            let value = match value_to_ast_within(constants, stack, &i.left, fuel) {
                Err(x) => Err(x),
                Ok(value) => Ok(
                    Expression::UnaryOp(Rc::new(UnaryExpression { kind: i.operator, value })),
                ),
            };
            write_to_slot(
                stack,
                i.dest,
                value,
                Ghost(
                    match value_ast(constants@, old(stack)@, i.left, fuel as nat) {
                        Ok(v) => Ok(ExprView::UnaryOp { kind: i.operator, value: Box::new(v) }),
                        Err(x) => Err(x),
                    },
                ),
            )
        },
        Instruction::Intrinsic(i) => {
            let value = intrinsic_to_ast(constants, stack, &i.kind);
            write_to_slot(stack, i.dest, value, Ghost(intrinsic_ast(constants@, old(stack)@, i.kind)))
        },
        Instruction::NewTable(i) => {
            let value = if i.array_size > 0 && i.table_size == 0 {
                let none: Vec<Expression> = Vec::new();
                assert(exprs_view(none@) =~= Seq::<ExprView>::empty());
                Expression::Table(Rc::new(TableExpression::Array(none)))
            } else {
                let none: Vec<(Expression, Expression)> = Vec::new();
                assert(pairs_view(none@) =~= Seq::<(ExprView, ExprView)>::empty());
                Expression::Table(Rc::new(TableExpression::HashMap(none)))
            };
            write_to_slot(
                stack,
                i.dest,
                Ok(value),
                Ghost(
                    Ok(
                        if i.array_size > 0 && i.table_size == 0 {
                            ExprView::TableArray(Seq::empty())
                        } else {
                            ExprView::TableMap(Seq::empty())
                        },
                    ),
                ),
            )
        },
        Instruction::Call(i) => lift_call(max_stack, stack, i),
        Instruction::Return(i) => lift_return(max_stack, stack, i),
        _ => Err(LunirError::UnsupportedInstruction(instruction.clone())),
    }
}

/// The lifter of one function body: the expression stack, the instructions
/// and the function they belong to.
pub struct Lifter {
    pub expression_stack: ExpressionStack,
    pub instructions: Vec<Instruction>,
    pub function: Function,
}

impl Lifter {
    /// A lifter for the instructions of a function, starting from the given
    /// stack.
    pub fn new(function: Function, instructions: Vec<Instruction>, expression_stack: ExpressionStack) -> (r: Self)
        ensures
            r.function == function,
            r.instructions == instructions,
            r.expression_stack == expression_stack,
    {
        Lifter { expression_stack, instructions, function }
    }

    /// How lifting the instructions from the present stack ends.
    pub open spec fn outcome(&self) -> LiftOutcome {
        lift_all(
            self.function.constants@,
            self.function.max_stack_size as int,
            self.expression_stack@,
            self.instructions@,
        )
    }

    /// The expression of a constant.
    pub fn constant_to_ast(&self, constant: &Constant) -> (r: Result<Expression, LunirError>)
        ensures
            lowered(
                r,
                constant_ast(
                    self.function.constants@,
                    self.expression_stack@,
                    *constant,
                    self.function.constants@.len(),
                ),
            ),
    {
        constant_to_ast_within(
            &self.function.constants,
            &self.expression_stack,
            constant,
            self.function.constants.len(),
        )
    }

    /// The expression of the constant with the given index.
    pub fn constant_index_to_ast(&self, idx: usize) -> (r: Result<Expression, LunirError>)
        ensures
            lowered(
                r,
                constant_index_ast(
                    self.function.constants@,
                    self.expression_stack@,
                    idx,
                    self.function.constants@.len(),
                ),
            ),
    {
        constant_index_to_ast_within(
            &self.function.constants,
            &self.expression_stack,
            idx,
            self.function.constants.len(),
        )
    }

    /// The expression of an operand.
    pub fn value_to_ast(&self, value: &Value) -> (r: Result<Expression, LunirError>)
        ensures
            lowered(
                r,
                value_ast(
                    self.function.constants@,
                    self.expression_stack@,
                    *value,
                    self.function.constants@.len(),
                ),
            ),
    {
        value_to_ast_within(
            &self.function.constants,
            &self.expression_stack,
            value,
            self.function.constants.len(),
        )
    }

    /// Lifts the instructions in their order into a block of statements.
    /// Either every instruction is lifted, or the error of the first one
    /// that fails is returned, without a block; the stack then stands as it
    /// did before that instruction.
    pub fn lift(&mut self) -> (r: Result<Box<StatBlock>, LunirError>)
        ensures
            final(self).function == old(self).function,
            final(self).instructions == old(self).instructions,
            match r {
                Ok(block) => old(self).outcome() == (LiftOutcome::Lifted {
                    stack: final(self).expression_stack@,
                    body: block@,
                }),
                Err(error) => old(self).outcome() == (LiftOutcome::Failed {
                    error,
                    stack: final(self).expression_stack@,
                }),
            },
    {
        let mut body: Vec<Statement> = Vec::new();
        let mut k: usize = 0;
        let ghost constants = self.function.constants@;
        let ghost max_stack = self.function.max_stack_size as int;
        let ghost start = self.expression_stack@;
        let ghost code = self.instructions@;
        assert(code.take(0) =~= Seq::<Instruction>::empty());
        assert(stmts_view(body@) =~= Seq::<StmtView>::empty());
        while k < self.instructions.len()
            invariant
                k <= self.instructions.len(),
                self.function == old(self).function,
                self.instructions == old(self).instructions,
                constants == self.function.constants@,
                max_stack == self.function.max_stack_size as int,
                code == self.instructions@,
                start == old(self).expression_stack@,
                lift_all(constants, max_stack, start, code.take(k as int)) == (LiftOutcome::Lifted {
                    stack: self.expression_stack@,
                    body: stmts_view(body@),
                }),
            decreases self.instructions.len() - k,
        {
            proof {
                lemma_lift_all_next(constants, max_stack, start, code, k as int);
            }
            let ghost emitted = stmts_view(body@);
            match lift_instruction(&self.function, &mut self.expression_stack, &self.instructions[k]) {
                Ok(Some(statement)) => {
                    body.push(statement);
                    assert(stmts_view(body@) =~= emitted.push(statement@));
                },
                Ok(None) => {},
                Err(error) => {
                    proof {
                        assert(lift_all(constants, max_stack, start, code.take(k + 1)) == (
                        LiftOutcome::Failed { error, stack: self.expression_stack@ }));
                        lemma_failed_stays(constants, max_stack, start, code, k + 1);
                    }
                    return Err(error);
                },
            }
            k += 1;
        }
        assert(code.take(code.len() as int) =~= code);
        Ok(Box::new(StatBlock { body }))
    }
}

/// Lifting one more instruction continues from where the instructions
/// before it ended.
pub proof fn lemma_lift_all_next(
    constants: Seq<Constant>,
    max_stack: int,
    stack: Seq<ExprView>,
    code: Seq<Instruction>,
    k: int,
)
    requires
        0 <= k < code.len(),
    ensures
        lift_all(constants, max_stack, stack, code.take(k + 1)) == (match lift_all(
            constants,
            max_stack,
            stack,
            code.take(k),
        ) {
            LiftOutcome::Failed { error, stack } => LiftOutcome::Failed { error, stack },
            LiftOutcome::Lifted { stack: before, body } => match lift_step(
                constants,
                max_stack,
                before,
                code[k],
            ) {
                Err(error) => LiftOutcome::Failed { error, stack: before },
                Ok((after, None)) => LiftOutcome::Lifted { stack: after, body },
                Ok((after, Some(statement))) => LiftOutcome::Lifted {
                    stack: after,
                    body: body.push(statement),
                },
            },
        }),
{
    assert(code.take(k + 1).drop_last() =~= code.take(k));
}

/// Once an instruction has failed, the instructions after it change
/// nothing.
pub proof fn lemma_failed_stays(
    constants: Seq<Constant>,
    max_stack: int,
    stack: Seq<ExprView>,
    code: Seq<Instruction>,
    k: int,
)
    requires
        0 <= k <= code.len(),
        lift_all(constants, max_stack, stack, code.take(k)) is Failed,
    ensures
        lift_all(constants, max_stack, stack, code) == lift_all(constants, max_stack, stack, code.take(k)),
    decreases code.len() - k,
{
    if k < code.len() {
        assert(code.take(k + 1).drop_last() =~= code.take(k));
        lemma_failed_stays(constants, max_stack, stack, code, k + 1);
    } else {
        assert(code.take(k) =~= code);
    }
}

} // verus!
