//! The pipelines: factories of jobs whose readiness is tracked by their
//! types. A compilation job needs a tree and a serializer; a decompilation
//! job needs a chunk and a reconstructor, and only a job that has both can
//! run.

use vstd::prelude::*;

use std::sync::Arc;

use crate::ast::statement::StatBlock;
use crate::ast::tree::Node;
use crate::ast::view::{ExprView, StmtView};
use crate::ast::visitors::source_reconstructor::{
    finished_text, render_stmts, SourceReconstructor,
};
use crate::error::LunirError;
use crate::il::{Constant, Function, IlChunk, Instruction, Vararg};
use crate::lifter::{lift_all, ExpressionStack, LiftOutcome, Lifter};
use crate::ast::expression::{Expression, Nil};

verus! {

/// How much a pipeline optimises: everything, what is safe from
/// miscompilation, or nothing.
#[derive(Clone, Copy, Debug, PartialEq, Eq, Structural)]
pub enum OptimizationLevel {
    All,
    Moderate,
    Off,
}

impl Default for OptimizationLevel {
    fn default() -> (r: Self)
        ensures
            r == OptimizationLevel::Moderate,
    {
        OptimizationLevel::Moderate
    }
}

/// The names of the bytecode formats that callers tell apart. The core reads
/// no bytecode; the names are tags for the caller's dispatch.
#[derive(Clone, Copy, Debug, PartialEq, Eq, Structural)]
pub enum BytecodeFormat {
    LuaP,
    LuaQ,
    LuaR,
    LuaS,
    LuaT,
    LuauV1,
    LuauV2,
    LuauV3,
}

/// `Arc::clone`: another handle on the same token.
#[verifier::external_body]
fn token_share(token: &Arc<()>) -> (r: Arc<()>)
    ensures
        r == *token,
{
    Arc::clone(token)
}

/// `Arc::strong_count`: the number of handles on the token that are alive
/// now, the given one among them. What the others are is not known here.
#[verifier::external_body]
fn token_count(token: &Arc<()>) -> (r: usize)
    ensures
        r >= 1,
{
    Arc::strong_count(token)
}

/// A compilation job without a serializer.
#[derive(Clone, Debug)]
pub struct NoSerializer;

/// A compilation job with its serializer, a function from a chunk to
/// bytes.
#[derive(Clone, Debug)]
pub struct WithSerializer<S>(pub S);

/// A compilation job without a tree.
#[derive(Clone, Debug)]
pub struct NoTree;

/// A compilation job with its tree.
#[derive(Clone, Debug)]
pub struct WithTree<'n>(pub &'n Node);

/// The parameters of one compilation. `T` says whether the job has a tree,
/// `F` whether it has a serializer.
#[derive(Clone, Debug)]
pub struct CompilationJob<T, F> {
    optimization_level: OptimizationLevel,
    reference: Arc<()>,
    serializer: F,
    tree: T,
}

impl<T, F> CompilationJob<T, F> {
    /// The level of optimisation of the job.
    pub closed spec fn level(&self) -> OptimizationLevel {
        self.optimization_level
    }

    /// What the job holds in place of a tree.
    pub closed spec fn tree_part(&self) -> T {
        self.tree
    }

    /// What the job holds in place of a serializer.
    pub closed spec fn serializer_part(&self) -> F {
        self.serializer
    }

    /// Sets the level of optimisation.
    pub fn optimization_level(self, level: OptimizationLevel) -> (r: Self)
        ensures
            r.level() == level,
            r.tree_part() == self.tree_part(),
            r.serializer_part() == self.serializer_part(),
    {
        CompilationJob {
            optimization_level: level,
            reference: self.reference,
            serializer: self.serializer,
            tree: self.tree,
        }
    }
}

impl<T> CompilationJob<T, NoSerializer> {
    /// Gives the job its serializer.
    pub fn serializer<S: Fn(IlChunk) -> Vec<u8>>(self, serializer: S) -> (r: CompilationJob<
        T,
        WithSerializer<S>,
    >)
        ensures
            r.serializer_part().0 == serializer,
            r.level() == self.level(),
            r.tree_part() == self.tree_part(),
    {
        CompilationJob {
            optimization_level: self.optimization_level,
            reference: self.reference,
            serializer: WithSerializer(serializer),
            tree: self.tree,
        }
    }
}

impl<F> CompilationJob<NoTree, F> {
    /// Gives the job its tree.
    pub fn tree<'a>(self, tree: &'a Node) -> (r: CompilationJob<WithTree<'a>, F>)
        ensures
            r.tree_part().0 == tree,
            r.level() == self.level(),
            r.serializer_part() == self.serializer_part(),
    {
        CompilationJob {
            optimization_level: self.optimization_level,
            reference: self.reference,
            serializer: self.serializer,
            tree: WithTree(tree),
        }
    }
}

/// A factory of compilation jobs.
pub struct Compiler {
    handle: Arc<()>,
}

impl Compiler {
    /// A compiler that has handed out no job.
    pub fn new() -> (r: Self) {
        Self { handle: Arc::new(()) }
    }

    /// A job without a tree and without a serializer, at the default level
    /// of optimisation.
    pub fn create_job(&self) -> (r: CompilationJob<NoTree, NoSerializer>)
        ensures
            r.level() == OptimizationLevel::Moderate,
    {
        CompilationJob {
            reference: token_share(&self.handle),
            optimization_level: OptimizationLevel::default(),
            serializer: NoSerializer,
            tree: NoTree,
        }
    }

    /// The number of jobs of this compiler, created or cloned, that are
    /// alive now: the handles on its token but its own.
    pub fn job_count(&self) -> (r: usize)
        ensures counts_jobs(r),
    { count_jobs(token_count(&self.handle)) }
}

/// A decompilation job without a reconstructor.
#[derive(Clone, Debug)]
pub struct NoReconstructor;

/// A decompilation job with its reconstructor.
#[derive(Clone, Debug)]
pub struct WithReconstructor {
    pub visitor: SourceReconstructor,
}

/// A decompilation job without a chunk.
#[derive(Clone, Debug)]
pub struct NoChunk;

/// A decompilation job with its chunk.
#[derive(Clone, Debug)]
pub struct WithChunk(pub IlChunk);

/// The parameters of one decompilation. `C` says whether the job has a
/// chunk, `F` whether it has a reconstructor.
#[derive(Clone, Debug)]
pub struct DecompilationJob<C, F> {
    chunk: C,
    optimization_level: OptimizationLevel,
    reference: Arc<()>,
    reconstructor: F,
}

impl<C, F> DecompilationJob<C, F> {
    /// The level of optimisation of the job.
    pub closed spec fn level(&self) -> OptimizationLevel {
        self.optimization_level
    }

    /// What the job holds in place of a chunk.
    pub closed spec fn chunk_part(&self) -> C {
        self.chunk
    }

    /// What the job holds in place of a reconstructor.
    pub closed spec fn reconstructor_part(&self) -> F {
        self.reconstructor
    }

    /// Sets the level of optimisation.
    pub fn optimization_level(self, level: OptimizationLevel) -> (r: Self)
        ensures
            r.level() == level,
            r.chunk_part() == self.chunk_part(),
            r.reconstructor_part() == self.reconstructor_part(),
    {
        DecompilationJob {
            chunk: self.chunk,
            optimization_level: level,
            reference: self.reference,
            reconstructor: self.reconstructor,
        }
    }
}

impl<C> DecompilationJob<C, NoReconstructor> {
    /// Gives the job the reconstructor that writes its source.
    pub fn reconstructor(self, visitor: SourceReconstructor) -> (r: DecompilationJob<C, WithReconstructor>)
        ensures
            r.reconstructor_part().visitor == visitor,
            r.level() == self.level(),
            r.chunk_part() == self.chunk_part(),
    {
        DecompilationJob {
            chunk: self.chunk,
            optimization_level: self.optimization_level,
            reference: self.reference,
            reconstructor: WithReconstructor { visitor },
        }
    }
}

impl<F> DecompilationJob<NoChunk, F> {
    /// Gives the job its chunk.
    pub fn chunk(self, chunk: IlChunk) -> (r: DecompilationJob<WithChunk, F>)
        ensures
            r.chunk_part().0 == chunk,
            r.level() == self.level(),
            r.reconstructor_part() == self.reconstructor_part(),
    {
        DecompilationJob {
            chunk: WithChunk(chunk),
            optimization_level: self.optimization_level,
            reference: self.reference,
            reconstructor: self.reconstructor,
        }
    }
}

/// The size of the register file in which a bare chunk is lifted: the
/// largest a function can have.
pub const REGISTER_FILE: u8 = 255;

/// The register file at the entry of a function: every register holds
/// `nil`.
pub open spec fn register_file() -> Seq<ExprView> {
    Seq::new(REGISTER_FILE as nat, |i: int| ExprView::Nil)
}

/// The source of a chunk, written after `text`. The chunk is lifted as the
/// body of a function without constants, in the largest register file, every
/// register holding `nil`. When lifting fails there is no source, only the
/// error.
pub open spec fn decompiled(
    code: Seq<Instruction>,
    header: Option<Seq<char>>,
    use_semicolons: bool,
    suffix: Seq<char>,
    text: Seq<char>,
) -> Result<Seq<char>, LunirError> {
    match lift_all(Seq::<Constant>::empty(), REGISTER_FILE as int, register_file(), code) {
        LiftOutcome::Lifted { stack, body } => Ok(
            finished_text(header, use_semicolons, text.add(render_stmts(suffix, body))),
        ),
        LiftOutcome::Failed { error, stack } => Err(error),
    }
}

/// What `decompiled` gives for a chunk and a reconstructor.
pub open spec fn decompiled_with(code: Seq<Instruction>, visitor: SourceReconstructor) -> Result<
    Seq<char>,
    LunirError,
> {
    decompiled(
        code,
        match visitor.settings().custom_header {
            Some(h) => Some(h@),
            None => None,
        },
        visitor.settings().use_semicolons,
        visitor.suffix(),
        visitor.text(),
    )
}

/// Whether a text is what the model says.
pub open spec fn is_text(r: Result<String, LunirError>, model: Result<Seq<char>, LunirError>) -> bool {
    match r {
        Ok(s) => model == Ok::<Seq<char>, LunirError>(s@),
        Err(e) => model == Err::<Seq<char>, LunirError>(e),
    }
}

/// Decompiles a chunk: lifts it into statements and has the reconstructor
/// write them.
pub fn decompile_chunk(chunk: IlChunk, visitor: SourceReconstructor) -> (r: Result<String, LunirError>)
    ensures
        is_text(r, decompiled_with(chunk@, visitor)),
{
    let function = Function {
        constants: Vec::new(),
        code: Vec::new(),
        is_variadic: Vararg::IsVararg,
        lineinfo: Vec::new(),
        name: None,
        upvalue_count: 0,
        param_count: 0,
        max_stack_size: REGISTER_FILE,
    };
    let mut stack = ExpressionStack::new();
    let mut i: u8 = 0;
    while i < REGISTER_FILE
        invariant
            i <= REGISTER_FILE,
            stack@ == Seq::new(i as nat, |k: int| ExprView::Nil),
        decreases REGISTER_FILE - i,
    {
        stack.push_local(Expression::Nil(std::rc::Rc::new(Nil)));
        assert(stack@ =~= Seq::new((i + 1) as nat, |k: int| ExprView::Nil));
        i += 1;
    }
    let ghost code = chunk@;
    let mut instructions: Vec<Instruction> = Vec::new();
    let inner = chunk.inner();
    let mut k: usize = 0;
    while k < inner.len()
        invariant
            k <= inner.len(),
            inner@ == code,
            instructions@ == code.take(k as int),
        decreases inner.len() - k,
    {
        instructions.push(inner[k].clone());
        assert(instructions@ =~= code.take(k + 1));
        k += 1;
    }
    assert(code.take(code.len() as int) =~= code);
    let mut lifter = Lifter::new(function, instructions, stack);
    assert(lifter.function.constants@ =~= Seq::<Constant>::empty());
    match lifter.lift() {
        Ok(block) => {
            let mut visitor = visitor;
            visitor.visit_stat_block(&block);
            Ok(visitor.source())
        },
        Err(error) => Err(error),
    }
}

impl DecompilationJob<WithChunk, WithReconstructor> {
    /// Runs the job: the chunk is lifted into statements, which the
    /// reconstructor writes out. The job is consumed.
    pub fn run(self) -> (r: Result<String, LunirError>)
        ensures
            is_text(r, decompiled_with(self.chunk_part().0@, self.reconstructor_part().visitor)),
    {
        decompile_chunk(self.chunk.0, self.reconstructor.visitor)
    }
}

/// A factory of decompilation jobs.
pub struct Decompiler {
    handle: Arc<()>,
}

impl Decompiler {
    /// A decompiler that has handed out no job.
    pub fn new() -> (r: Self) {
        Self { handle: Arc::new(()) }
    }

    /// A job without a chunk and without a reconstructor, at the default
    /// level of optimisation.
    pub fn create_job(&self) -> (r: DecompilationJob<NoChunk, NoReconstructor>)
        ensures
            r.level() == OptimizationLevel::Moderate,
    {
        DecompilationJob {
            chunk: NoChunk,
            reference: token_share(&self.handle),
            optimization_level: OptimizationLevel::default(),
            reconstructor: NoReconstructor,
        }
    }

    /// The number of jobs of this decompiler, created or cloned, that are
    /// alive now: the handles on its token but its own.
    pub fn job_count(&self) -> (r: usize)
        ensures counts_jobs(r),
    { count_jobs(token_count(&self.handle)) }

    /// Decompiles bytecode of a format that the caller reads: `lifter` turns
    /// the bytes into a chunk, which is lifted and written out under the
    /// default settings.
    pub fn decompile_with_lifter<F: Fn(Vec<u8>) -> IlChunk>(bytecode: Vec<u8>, lifter: F) -> (r: Result<
        String,
        LunirError,
    >)
        requires
            call_requires(lifter, (bytecode,)),
        ensures
            exists|chunk: IlChunk, visitor: SourceReconstructor|
                call_ensures(lifter, (bytecode,), chunk) && is_default(visitor) && #[trigger] is_text(
                    r,
                    decompiled_with(chunk@, visitor),
                ),
    {
        let chunk = lifter(bytecode);
        let visitor = SourceReconstructor::default();
        decompile_chunk(chunk, visitor)
    }
}

/// Whether a reconstructor has the default settings and has written
/// nothing.
pub open spec fn is_default(visitor: SourceReconstructor) -> bool {
    &&& visitor.text() == Seq::<char>::empty()
    &&& visitor.settings().use_semicolons
    &&& visitor.settings().use_newline
    &&& !visitor.settings().use_tabs
    &&& visitor.settings().space_count == 4
    &&& visitor.settings().custom_header matches Some(h) && h@
        == crate::ast::visitors::source_reconstructor::default_header()
}

/// The settings of a compiler. There are none yet.
#[derive(Debug, Clone, Copy, PartialEq, Eq, Structural)]
pub struct CompilerSettings {}

/// A builder of compilers.
pub struct CompilerBuilder {
    pub settings: Option<CompilerSettings>,
}

impl CompilerBuilder {
    /// A builder without settings.
    pub fn new() -> (r: Self)
        ensures
            r.settings is None,
    {
        CompilerBuilder { settings: None }
    }

    /// A builder with the given settings.
    pub fn with_settings(settings: CompilerSettings) -> (r: Self)
        ensures
            r.settings == Some(settings),
    {
        Self { settings: Some(settings) }
    }

    /// Gives the builder its settings.
    pub fn settings(&mut self, settings: CompilerSettings) -> (r: &mut Self)
        ensures
            r.settings == Some(settings),
            *final(self) == *final(r),
    {
        self.settings = Some(settings);
        self
    }
}

/// The settings of a decompiler. There are none yet.
#[derive(Debug, Clone, Copy, PartialEq, Eq, Structural)]
pub struct DecompilerSettings {}

/// A builder of decompilers.
pub struct DecompilerBuilder {
    pub settings: Option<DecompilerSettings>,
}

impl DecompilerBuilder {
    /// A builder without settings.
    pub fn new() -> (r: Self)
        ensures
            r.settings is None,
    {
        DecompilerBuilder { settings: None }
    }

    /// A builder with the given settings.
    pub fn with_settings(settings: DecompilerSettings) -> (r: Self)
        ensures
            r.settings == Some(settings),
    {
        Self { settings: Some(settings) }
    }

    /// Gives the builder its settings.
    pub fn settings(&mut self, settings: DecompilerSettings) -> (r: &mut Self)
        ensures
            r.settings == Some(settings),
            *final(self) == *final(r),
    {
        self.settings = Some(settings);
        self
    }
}

/// The jobs among the handles on a token: every handle but the one that
/// the factory keeps for itself.
pub open spec fn jobs_among(handles: nat) -> nat {
    if handles > 0 {
        (handles - 1) as nat
    } else {
        0
    }
}

/// Whether a number counts the jobs of a factory: it is what `jobs_among`
/// gives for some number of handles, the one of the factory among them.
pub open spec fn counts_jobs(count: usize) -> bool {
    exists|handles: usize| handles >= 1 && count == #[trigger] jobs_among(handles as nat)
}

/// The number of jobs among the given number of handles on a token.
pub fn count_jobs(handles: usize) -> (r: usize)
    ensures
        r == jobs_among(handles as nat),
        handles >= 1 ==> counts_jobs(r),
{
    if handles > 0 {
        handles - 1
    } else {
        0
    }
}

} // verus!
