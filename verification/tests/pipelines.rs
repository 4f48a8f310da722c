use lunir::ast::tree::Node;
use lunir::ast::visitors::source_reconstructor::{
    SourceReconstructor, SourceReconstructorSettingsBuilder,
};
use lunir::error::LunirError;
use lunir::il::{IlChunk, Instruction, Load, Return, Value};
use lunir::pipelines::{
    count_jobs, decompile_chunk, Compiler, CompilerBuilder, CompilerSettings, Decompiler, DecompilerBuilder,
    DecompilerSettings, OptimizationLevel,
};

fn sample() -> Vec<Instruction> {
    vec![
        Instruction::Load(Box::new(Load {
            dest: 0,
            src: Value::Immediate(5),
        })),
        Instruction::Load(Box::new(Load {
            dest: 1,
            src: Value::Boolean(false),
        })),
        Instruction::Return(Box::new(Return {
            result_start: 0,
            result_count: 2,
        })),
    ]
}

fn plain() -> SourceReconstructor {
    SourceReconstructor::with_settings(
        SourceReconstructorSettingsBuilder::default()
            .custom_header(None)
            .build()
            .unwrap(),
    )
}

#[test]
fn compiler_counts_its_living_jobs() {
    let compiler = Compiler::new();
    assert_eq!(compiler.job_count(), 0);
    let first = compiler.create_job();
    assert_eq!(compiler.job_count(), 1);
    let second = compiler.create_job().optimization_level(OptimizationLevel::All);
    assert_eq!(compiler.job_count(), 2);
    let copy = second.clone();
    assert_eq!(compiler.job_count(), 3);
    drop(first);
    assert_eq!(compiler.job_count(), 2);
    drop(second);
    drop(copy);
    assert_eq!(compiler.job_count(), 0);
}

#[test]
fn compilation_job_takes_tree_and_serializer() {
    let compiler = Compiler::new();
    let tree = Node::default();
    let job = compiler
        .create_job()
        .tree(&tree)
        .serializer(|chunk: IlChunk| vec![chunk.inner().len() as u8])
        .optimization_level(OptimizationLevel::Off);
    assert_eq!(compiler.job_count(), 1);
    drop(job);
    assert_eq!(compiler.job_count(), 0);
    assert_eq!(OptimizationLevel::default(), OptimizationLevel::Moderate);
}

#[test]
fn decompiler_counts_its_living_jobs() {
    let decompiler = Decompiler::new();
    assert_eq!(decompiler.job_count(), 0);
    let job = decompiler
        .create_job()
        .chunk(IlChunk::new(sample()))
        .reconstructor(plain())
        .optimization_level(OptimizationLevel::Moderate);
    assert_eq!(decompiler.job_count(), 1);
    assert_eq!(job.run(), Ok("return 5, false;\n".to_string()));
    assert_eq!(decompiler.job_count(), 0);
}

#[test]
fn decompilation_fails_as_lifting_does() {
    let code = vec![Instruction::Load(Box::new(Load {
        dest: 255,
        src: Value::Nil,
    }))];
    assert_eq!(
        decompile_chunk(IlChunk::new(code), plain()),
        Err(LunirError::StackUnderflow(255))
    );
    let with_constant = vec![Instruction::Load(Box::new(Load {
        dest: 0,
        src: Value::ConstantIndex(0),
    }))];
    assert_eq!(
        Decompiler::new()
            .create_job()
            .reconstructor(plain())
            .chunk(IlChunk::new(with_constant))
            .run(),
        Err(LunirError::ConstantOutOfRange(0))
    );
}

#[test]
fn decompile_with_a_lifter_of_the_caller() {
    let source = Decompiler::decompile_with_lifter(vec![1, 2, 3], |bytes: Vec<u8>| {
        assert_eq!(bytes, vec![1, 2, 3]);
        IlChunk::new(sample())
    });
    assert_eq!(
        source,
        Ok(
            "// Decompiled with LUNIR (https://github.com/lunir-project/lunir)\nreturn 5, false;\n"
                .to_string()
        )
    );
}

#[test]
fn builders_hold_their_settings() {
    assert_eq!(CompilerBuilder::new().settings, None);
    assert_eq!(
        CompilerBuilder::with_settings(CompilerSettings {}).settings,
        Some(CompilerSettings {})
    );
    let mut builder = CompilerBuilder::new();
    builder.settings(CompilerSettings {});
    assert_eq!(builder.settings, Some(CompilerSettings {}));
    assert_eq!(DecompilerBuilder::new().settings, None);
    assert_eq!(
        DecompilerBuilder::with_settings(DecompilerSettings {}).settings,
        Some(DecompilerSettings {})
    );
    let mut other = DecompilerBuilder::new();
    other.settings(DecompilerSettings {});
    assert_eq!(other.settings, Some(DecompilerSettings {}));
}

#[test]
fn chunks_compare_by_content() {
    let chunk = IlChunk::new(sample());
    assert_eq!(chunk.inner(), &sample());
    assert_eq!(chunk.clone(), chunk);
    assert!(chunk.same(&IlChunk::from_slice(&sample())));
    assert!(!chunk.same(&IlChunk::from_range(&sample(), 0, 2)));
    assert_eq!(IlChunk::from_range(&sample(), 1, 3).inner(), &sample()[1..].to_vec());
    assert_eq!(IlChunk::from(&sample()[..]), chunk);
    let mut changed = IlChunk::new(sample());
    changed.inner_mut().pop();
    assert_eq!(changed.inner().len(), 2);
}

#[test]
fn jobs_are_the_handles_but_the_factory_s() {
    assert_eq!(count_jobs(1), 0);
    assert_eq!(count_jobs(2), 1);
    assert_eq!(count_jobs(usize::MAX), usize::MAX - 1);
    assert_eq!(count_jobs(0), 0);
    let decompiler = Decompiler::new();
    let first = decompiler.create_job();
    let second = first.clone();
    assert_eq!(decompiler.job_count(), 2);
    drop(first);
    drop(second);
    assert_eq!(decompiler.job_count(), 0);
}
