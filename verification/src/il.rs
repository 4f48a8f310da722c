//! The intermediate language: operands, constants, instructions and chunks.
//!
//! An instruction sequence models a register machine with a constant pool.
//! Instructions hold only integers, booleans and small enums, so two
//! instructions are equal exactly when they are built alike.

use vstd::prelude::*;

use crate::ast::expression::Number;

verus! {

/// The constant form of a table. A keyed table keeps its pairs in the order written
/// and may hold one key several times, so it is a sequence and never a hash
/// map.
#[derive(Clone, Debug, PartialEq)]
pub enum Table {
    Pairs(Vec<(Value, Value)>),
    Array(Vec<Value>),
}

/// An operand of an instruction.
#[derive(Clone, Copy, Debug, PartialEq, Eq, Hash, Structural)]
pub enum Value {
    Nil,
    Boolean(bool),
    ConstantIndex(usize),
    Immediate(i32),
    StackIndex(usize),
}

/// An entry of the constant pool.
#[derive(Debug)]
pub enum Constant {
    Nil,
    Boolean(bool),
    Function(Function),
    Number(Number),
    String(String),
    Table(Table),
}

/// Writes `src` into register `dest`.
#[derive(Clone, Copy, Debug, PartialEq, Eq, Structural)]
pub struct Load {
    pub dest: usize,
    pub src: Value,
}

/// Fetches the global named by constant `constant` into register `dest`.
#[derive(Clone, Copy, Debug, PartialEq, Eq, Structural)]
pub struct GetGlobal {
    pub dest: usize,
    pub constant: usize,
}

/// Publishes register `src` under the global named by constant `constant`.
#[derive(Clone, Copy, Debug, PartialEq, Eq, Structural)]
pub struct SetGlobal {
    pub src: usize,
    pub constant: usize,
}

/// Indexes the table in register `source` with `key` and stores the result
/// in register `dest`.
#[derive(Clone, Copy, Debug, PartialEq, Eq, Structural)]
pub struct GetTable {
    pub dest: usize,
    pub source: usize,
    pub key: Value,
}

/// The binary operations of the machine.
#[derive(Clone, Copy, Debug, PartialEq, Eq, Structural)]
pub enum BinaryOpKind {
    Add,
    Concat,
    Div,
    Mod,
    Mul,
    Pow,
    Sub,
}

/// A binary operation on two operands into register `dest`.
#[derive(Clone, Copy, Debug, PartialEq, Eq, Structural)]
pub struct BinaryOp {
    pub operator: BinaryOpKind,
    pub dest: usize,
    pub left: Value,
    pub right: Value,
}

/// The unary operations of the machine.
#[derive(Clone, Copy, Debug, PartialEq, Eq, PartialOrd, Ord, Structural)]
pub enum UnaryOpKind {
    Len,
    Not,
    Neg,
}

/// A unary operation on one operand into register `dest`.
#[derive(Clone, Copy, Debug, PartialEq, Eq, Structural)]
pub struct UnaryOp {
    pub operator: UnaryOpKind,
    pub dest: usize,
    pub left: Value,
}

/// The comparisons and connectives a conditional jump can test.
#[derive(Clone, Copy, Debug, PartialEq, Eq, Structural)]
pub enum ConditionKind {
    Eq,
    Ge,
    Gt,
    Ne,
    Lt,
    Le,
    And,
    Or,
}

/// A condition over two operands.
#[derive(Clone, Copy, Debug, PartialEq, Eq, Structural)]
pub struct Condition {
    pub kind: ConditionKind,
    pub left: Value,
    pub right: Value,
}

/// The bitwise built-ins, each with the operands it captures.
#[derive(Clone, Copy, Debug, PartialEq, Eq, Structural)]
pub enum IntrinsicKind {
    BitAnd(Value, Value),
    BitOr(Value, Value),
    BitXor(Value, Value),
    BitNot(Value),
    LeftShift(Value, Value),
    RightShift(Value, Value),
}

impl IntrinsicKind {
    /// Whether the built-in takes a single operand.
    pub fn is_unary(&self) -> (r: bool)
        ensures
            r == (*self is BitNot),
    {
        match self {
            Self::BitNot(_) => true,
            _ => false,
        }
    }

    /// Whether the built-in takes two operands.
    pub fn is_binary(&self) -> (r: bool)
        ensures
            r == !(*self is BitNot),
    {
        !self.is_unary()
    }
}

/// A built-in applied into register `dest`.
#[derive(Clone, Copy, Debug, PartialEq, Eq, Structural)]
pub struct Intrinsic {
    pub kind: IntrinsicKind,
    pub dest: usize,
}

/// Where a jump stands and where it goes: `start` is the position of the
/// jump, `end` the absolute position it targets, and `offset` the signed
/// distance between them. `end` is the authority on the target.
#[derive(Clone, Copy, Debug, PartialEq, Eq, Structural)]
pub struct JumpBranch {
    pub start: usize,
    pub end: usize,
    pub offset: isize,
}

/// An unconditional jump.
#[derive(Clone, Copy, Debug, PartialEq, Eq, Structural)]
pub struct Jump {
    pub branch: JumpBranch,
}

/// A jump taken when register `cond` is false.
#[derive(Clone, Copy, Debug, PartialEq, Eq, Structural)]
pub struct JumpNot {
    pub branch: JumpBranch,
    pub cond: usize,
}

/// A jump taken when `condition` holds.
#[derive(Clone, Copy, Debug, PartialEq, Eq, Structural)]
pub struct ConditionalJump {
    pub branch: JumpBranch,
    pub condition: Condition,
}

/// Creates a table in register `dest` with room for `array_size` array
/// elements and `table_size` keyed entries.
#[derive(Clone, Copy, Debug, PartialEq, Eq, Structural)]
pub struct NewTable {
    pub dest: usize,
    pub array_size: usize,
    pub table_size: usize,
}

/// Either an exact count or "through the top of the stack".
#[derive(Clone, Copy, Debug, PartialEq, Eq, Structural)]
pub enum OptVariable {
    Variable,
    Number(usize),
}

/// Calls the function in register `callee`.
#[derive(Clone, Copy, Debug, PartialEq, Eq, Structural)]
pub struct Call {
    pub callee: usize,
    pub self_call: bool,
    pub num_args: OptVariable,
    pub num_returns: OptVariable,
}

/// Returns `result_count` registers starting at `result_start`.
#[derive(Clone, Copy, Debug, PartialEq, Eq, Structural)]
pub struct Return {
    pub result_start: usize,
    pub result_count: usize,
}

/// The arity tag of a function.
#[derive(Clone, Copy, Debug, PartialEq, Eq, Structural)]
pub enum Vararg {
    HasArg,
    IsVararg,
    NeedsArg,
}

/// A function of the intermediate language.
#[derive(Debug)]
pub struct Function {
    pub constants: Vec<Constant>,
    pub code: Vec<u8>,
    pub is_variadic: Vararg,
    pub lineinfo: Vec<u32>,
    pub name: Option<String>,
    pub upvalue_count: u8,
    pub param_count: u8,
    pub max_stack_size: u8,
}

/// The instructions of the intermediate language.
#[derive(Debug, PartialEq)]
pub enum Instruction {
    Load(Box<Load>),
    Intrinsic(Box<Intrinsic>),
    GetGlobal(Box<GetGlobal>),
    GetTable(Box<GetTable>),
    BinaryOp(Box<BinaryOp>),
    UnaryOp(Box<UnaryOp>),
    Jump(Box<Jump>),
    JumpNot(Box<JumpNot>),
    ConditionalJump(Box<ConditionalJump>),
    NewTable(Box<NewTable>),
    Return(Box<Return>),
    Call(Box<Call>),
    SetGlobal(Box<SetGlobal>),
}

impl Clone for Instruction {
    fn clone(&self) -> (r: Self)
        ensures
            r == *self,
    {
        match self {
            Instruction::Load(i) => Instruction::Load(Box::new(**i)),
            Instruction::Intrinsic(i) => Instruction::Intrinsic(Box::new(**i)),
            Instruction::GetGlobal(i) => Instruction::GetGlobal(Box::new(**i)),
            Instruction::GetTable(i) => Instruction::GetTable(Box::new(**i)),
            Instruction::BinaryOp(i) => Instruction::BinaryOp(Box::new(**i)),
            Instruction::UnaryOp(i) => Instruction::UnaryOp(Box::new(**i)),
            Instruction::Jump(i) => Instruction::Jump(Box::new(**i)),
            Instruction::JumpNot(i) => Instruction::JumpNot(Box::new(**i)),
            Instruction::ConditionalJump(i) => Instruction::ConditionalJump(Box::new(**i)),
            Instruction::NewTable(i) => Instruction::NewTable(Box::new(**i)),
            Instruction::Return(i) => Instruction::Return(Box::new(**i)),
            Instruction::Call(i) => Instruction::Call(Box::new(**i)),
            Instruction::SetGlobal(i) => Instruction::SetGlobal(Box::new(**i)),
        }
    }
}

impl Instruction {
    /// Whether the instruction transfers control: a jump of any kind.
    pub open spec fn is_transfer(self) -> bool {
        self is Jump || self is JumpNot || self is ConditionalJump
    }

    /// The branch of a control transfer.
    pub open spec fn branch(self) -> JumpBranch
        recommends
            self.is_transfer(),
    {
        match self {
            Instruction::Jump(j) => j.branch,
            Instruction::JumpNot(j) => j.branch,
            Instruction::ConditionalJump(j) => j.branch,
            _ => JumpBranch { start: 0, end: 0, offset: 0 },
        }
    }

    /// Structural equality of two instructions.
    pub fn same(&self, other: &Instruction) -> (r: bool)
        ensures
            r == (*self == *other),
    {
        match (self, other) {
            (Instruction::Load(a), Instruction::Load(b)) => **a == **b,
            (Instruction::Intrinsic(a), Instruction::Intrinsic(b)) => **a == **b,
            (Instruction::GetGlobal(a), Instruction::GetGlobal(b)) => **a == **b,
            (Instruction::GetTable(a), Instruction::GetTable(b)) => **a == **b,
            (Instruction::BinaryOp(a), Instruction::BinaryOp(b)) => **a == **b,
            (Instruction::UnaryOp(a), Instruction::UnaryOp(b)) => **a == **b,
            (Instruction::Jump(a), Instruction::Jump(b)) => **a == **b,
            (Instruction::JumpNot(a), Instruction::JumpNot(b)) => **a == **b,
            (Instruction::ConditionalJump(a), Instruction::ConditionalJump(b)) => **a == **b,
            (Instruction::NewTable(a), Instruction::NewTable(b)) => **a == **b,
            (Instruction::Return(a), Instruction::Return(b)) => **a == **b,
            (Instruction::Call(a), Instruction::Call(b)) => **a == **b,
            (Instruction::SetGlobal(a), Instruction::SetGlobal(b)) => **a == **b,
            _ => false,
        }
    }
}

/// A chunk of code: an ordered sequence of instructions, compared by its
/// contents.
#[derive(Debug, PartialEq)]
pub struct IlChunk(Vec<Instruction>);

impl View for IlChunk {
    type V = Seq<Instruction>;

    closed spec fn view(&self) -> Seq<Instruction> {
        self.0@
    }
}

impl Clone for IlChunk {
    fn clone(&self) -> (r: Self)
        ensures
            r@ == self@,
    {
        IlChunk::from_slice(self.0.as_slice())
    }
}

impl From<&[Instruction]> for IlChunk {
    /// The chunk that holds a copy of the given instructions.
    fn from(slice: &[Instruction]) -> (r: IlChunk)
        ensures
            r@ == slice@,
    {
        IlChunk::from_slice(slice)
    }
}

impl vstd::std_specs::convert::FromSpecImpl<&[Instruction]> for IlChunk {
    open spec fn obeys_from_spec() -> bool {
        false
    }

    open spec fn from_spec(slice: &[Instruction]) -> IlChunk {
        arbitrary()
    }
}

impl IlChunk {
    /// The instructions of the chunk.
    pub fn inner(&self) -> (r: &Vec<Instruction>)
        ensures
            r@ == self@,
    {
        &self.0
    }

    /// The chunk that holds the given instructions in their order.
    pub fn new(inner: Vec<Instruction>) -> (r: Self)
        ensures
            r@ == inner@,
    {
        Self(inner)
    }

    /// The instructions of the chunk, for changing them in place.
    pub fn inner_mut(&mut self) -> (r: &mut Vec<Instruction>)
        ensures
            r@ == old(self)@,
            final(self)@ == final(r)@,
    {
        &mut self.0
    }

    /// The chunk that holds a copy of the given instructions.
    pub fn from_slice(slice: &[Instruction]) -> (r: Self)
        ensures
            r@ == slice@,
    {
        let mut out: Vec<Instruction> = Vec::new();
        let mut i: usize = 0;
        while i < slice.len()
            invariant
                i <= slice.len(),
                out@ == slice@.subrange(0, i as int),
            decreases slice.len() - i,
        {
            out.push(slice[i].clone());
            assert(out@ =~= slice@.subrange(0, i + 1));
            i += 1;
        }
        assert(slice@.subrange(0, slice@.len() as int) =~= slice@);
        Self(out)
    }

    /// The chunk that holds a copy of the instructions from `start` up to
    /// `end`.
    pub fn from_range(code: &Vec<Instruction>, start: usize, end: usize) -> (r: Self)
        requires
            start <= end <= code.len(),
        ensures
            r@ == code@.subrange(start as int, end as int),
    {
        let mut out: Vec<Instruction> = Vec::new();
        let mut i: usize = start;
        while i < end
            invariant
                start <= i <= end <= code.len(),
                out@ == code@.subrange(start as int, i as int),
            decreases end - i,
        {
            out.push(code[i].clone());
            assert(out@ =~= code@.subrange(start as int, i + 1));
            i += 1;
        }
        Self(out)
    }

    /// Whether two chunks hold the same instructions in the same order.
    pub fn same(&self, other: &IlChunk) -> (r: bool)
        ensures
            r == (self@ == other@),
    {
        if self.0.len() != other.0.len() {
            return false;
        }
        let mut i: usize = 0;
        while i < self.0.len()
            invariant
                i <= self.0.len(),
                self.0.len() == other.0.len(),
                forall|k: int| 0 <= k < i ==> self@[k] == other@[k],
            decreases self.0.len() - i,
        {
            if !self.0[i].same(&other.0[i]) {
                return false;
            }
            i += 1;
        }
        assert(self@ =~= other@);
        true
    }
}

} // verus!
