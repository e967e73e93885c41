use vstd::prelude::*;

use crate::text::{concat, concat3};

verus! {

/// A list of operations not supported
#[derive(Debug, Clone, Copy, PartialEq, Eq, Structural)]
pub enum Unsupported {
    ModuleLevelAssembly,
    InlineAssembly,
    CallBranch,
    GlobalAlias,
    GlobalMarker,
    FloatingPointOrdering,
    VectorOfPointers,
    ScalableVector,
    VectorBitcast,
    VariadicArguments,
    ArchSpecificExtension,
    TypedPointer,
    ThreadLocalStorage,
    WeakGlobalVariable,
    WeakFunction,
    HugeConstAggregate,
    PointerAddressSpace,
    OutOfBoundConstantGEP,
    InterfaceResolver,
    AnonymousFunction,
    AnonymousGlobalVariable,
    OpaqueType,
    IntrinsicsPreAllocated,
    IntrinsicsConvergence,
    IntrinsicsCoroutine,
    IntrinsicsEH,
    IntrinsicsGC,
    AtomicInstruction,
    WindowsEH,
    MetadataSystem,
    IndirectJump,
    ExceptionHandling,
}

/// The description of an unsupported operation.
pub open spec fn unsupported_text(u: Unsupported) -> Seq<char> {
    match u {
        Unsupported::ModuleLevelAssembly => "module-level assembly"@,
        Unsupported::InlineAssembly => "inline assembly"@,
        Unsupported::CallBranch => "call branch"@,
        Unsupported::GlobalAlias => "global alias"@,
        Unsupported::GlobalMarker => "markers for global values"@,
        Unsupported::FloatingPointOrdering => "floating point ordered comparison"@,
        Unsupported::VectorOfPointers => "vector of pointers"@,
        Unsupported::ScalableVector => "scalable vector of non-fixed size"@,
        Unsupported::VectorBitcast => "bitcast among vector and scalar"@,
        Unsupported::VariadicArguments => "variadic arguments"@,
        Unsupported::ArchSpecificExtension => "architecture-specific extension"@,
        Unsupported::TypedPointer => "typed pointer"@,
        Unsupported::ThreadLocalStorage => "thread-local storage"@,
        Unsupported::WeakGlobalVariable => "weak definition for global variable"@,
        Unsupported::WeakFunction => "weak definition for function"@,
        Unsupported::HugeConstAggregate => "huge constant aggregates"@,
        Unsupported::PointerAddressSpace => "address space of a pointer"@,
        Unsupported::OutOfBoundConstantGEP => "intentional out-of-bound GEP on constant"@,
        Unsupported::InterfaceResolver => "load-time interface resolving"@,
        Unsupported::AnonymousFunction => "anonymous function"@,
        Unsupported::AnonymousGlobalVariable => "anonymous global variable"@,
        Unsupported::OpaqueType => "opaque type"@,
        Unsupported::IntrinsicsPreAllocated => "llvm.call.preallocated.*"@,
        Unsupported::IntrinsicsConvergence => "llvm.experimental.convergence.*"@,
        Unsupported::IntrinsicsCoroutine => "llvm.coro.*"@,
        Unsupported::IntrinsicsEH => "llvm.eh.exceptionpointer.*"@,
        Unsupported::IntrinsicsGC => "llvm.experimental.gc.*"@,
        Unsupported::AtomicInstruction => "atomic instruction"@,
        Unsupported::WindowsEH => "exception handling on windows"@,
        Unsupported::MetadataSystem => "metadata system"@,
        Unsupported::IndirectJump => "indirect jump"@,
        Unsupported::ExceptionHandling => "exception handling"@,
    }
}

/// The signature by which the descriptions of unsupported operations differ: the
/// length and the first two characters.
pub open spec fn text_signature(s: Seq<char>) -> (nat, char, char) {
    (s.len(), s[0], s[1])
}

/// Distinct unsupported operations are described by distinct texts.
#[verifier::rlimit(60)]
pub proof fn law_unsupported_texts_distinct(a: Unsupported, b: Unsupported)
    requires
        a != b,
    ensures
        unsupported_text(a) != unsupported_text(b),
{
    reveal_strlit("module-level assembly");
    reveal_strlit("inline assembly");
    reveal_strlit("call branch");
    reveal_strlit("global alias");
    reveal_strlit("markers for global values");
    reveal_strlit("floating point ordered comparison");
    reveal_strlit("vector of pointers");
    reveal_strlit("scalable vector of non-fixed size");
    reveal_strlit("bitcast among vector and scalar");
    reveal_strlit("variadic arguments");
    reveal_strlit("architecture-specific extension");
    reveal_strlit("typed pointer");
    reveal_strlit("thread-local storage");
    reveal_strlit("weak definition for global variable");
    reveal_strlit("weak definition for function");
    reveal_strlit("huge constant aggregates");
    reveal_strlit("address space of a pointer");
    reveal_strlit("intentional out-of-bound GEP on constant");
    reveal_strlit("load-time interface resolving");
    reveal_strlit("anonymous function");
    reveal_strlit("anonymous global variable");
    reveal_strlit("opaque type");
    reveal_strlit("llvm.call.preallocated.*");
    reveal_strlit("llvm.experimental.convergence.*");
    reveal_strlit("llvm.coro.*");
    reveal_strlit("llvm.eh.exceptionpointer.*");
    reveal_strlit("llvm.experimental.gc.*");
    reveal_strlit("atomic instruction");
    reveal_strlit("exception handling on windows");
    reveal_strlit("metadata system");
    reveal_strlit("indirect jump");
    reveal_strlit("exception handling");
    assert(text_signature(unsupported_text(a)) != text_signature(unsupported_text(b)));
}

impl Unsupported {
    /// The description of the unsupported operation, as shown to users.
    pub fn describe(&self) -> (r: &'static str)
        ensures
            r@ == unsupported_text(*self),
    {
        match self {
            Unsupported::ModuleLevelAssembly => "module-level assembly",
            Unsupported::InlineAssembly => "inline assembly",
            Unsupported::CallBranch => "call branch",
            Unsupported::GlobalAlias => "global alias",
            Unsupported::GlobalMarker => "markers for global values",
            Unsupported::FloatingPointOrdering => "floating point ordered comparison",
            Unsupported::VectorOfPointers => "vector of pointers",
            Unsupported::ScalableVector => "scalable vector of non-fixed size",
            Unsupported::VectorBitcast => "bitcast among vector and scalar",
            Unsupported::VariadicArguments => "variadic arguments",
            Unsupported::ArchSpecificExtension => "architecture-specific extension",
            Unsupported::TypedPointer => "typed pointer",
            Unsupported::ThreadLocalStorage => "thread-local storage",
            Unsupported::WeakGlobalVariable => "weak definition for global variable",
            Unsupported::WeakFunction => "weak definition for function",
            Unsupported::HugeConstAggregate => "huge constant aggregates",
            Unsupported::PointerAddressSpace => "address space of a pointer",
            Unsupported::OutOfBoundConstantGEP => "intentional out-of-bound GEP on constant",
            Unsupported::InterfaceResolver => "load-time interface resolving",
            Unsupported::AnonymousFunction => "anonymous function",
            Unsupported::AnonymousGlobalVariable => "anonymous global variable",
            Unsupported::OpaqueType => "opaque type",
            Unsupported::IntrinsicsPreAllocated => "llvm.call.preallocated.*",
            Unsupported::IntrinsicsConvergence => "llvm.experimental.convergence.*",
            Unsupported::IntrinsicsCoroutine => "llvm.coro.*",
            Unsupported::IntrinsicsEH => "llvm.eh.exceptionpointer.*",
            Unsupported::IntrinsicsGC => "llvm.experimental.gc.*",
            Unsupported::AtomicInstruction => "atomic instruction",
            Unsupported::WindowsEH => "exception handling on windows",
            Unsupported::MetadataSystem => "metadata system",
            Unsupported::IndirectJump => "indirect jump",
            Unsupported::ExceptionHandling => "exception handling",
        }
    }
}

/// A set of tools
#[derive(Debug, Clone)]
pub enum Tool {
    ClangCompile,
    LLVMDis,
    LLVMLink,
    OptVerify,
    OptPipeline(String),
}

/// The description of a tool, as shown in error messages.
pub open spec fn tool_text(t: Tool) -> Seq<char> {
    match t {
        Tool::ClangCompile => "clang|-c|"@,
        Tool::LLVMDis => "llvm-dis"@,
        Tool::LLVMLink => "llvm-link"@,
        Tool::OptVerify => "opt|-verify|"@,
        Tool::OptPipeline(s) => "opt|"@ + s@ + "|"@,
    }
}

impl Tool {
    /// The description of the tool, as shown in error messages.
    pub fn describe(&self) -> (r: String)
        ensures
            r@ == tool_text(*self),
    {
        match self {
            Tool::ClangCompile => "clang|-c|".to_owned(),
            Tool::LLVMDis => "llvm-dis".to_owned(),
            Tool::LLVMLink => "llvm-link".to_owned(),
            Tool::OptVerify => "opt|-verify|".to_owned(),
            Tool::OptPipeline(s) => concat3("opt|", s.as_str(), "|"),
        }
    }
}

/// A custom error message for the analysis engine
#[derive(Debug, Clone)]
pub enum EngineError {
    /// Error during the compilation of the input
    CompilationError(Tool, String),
    /// Error during the loading of a compiled LLVM module
    LLVMLoadingError(String),
    /// Invalid assumption made about the program
    InvalidAssumption(String),
    /// Operation not supported yet
    NotSupportedYet(Unsupported),
    /// Invariant violation
    InvariantViolation(String),
}

/// Result of the analysis engine
pub type EngineResult<T> = Result<T, EngineError>;

/// The message of an engine error, as shown to users.
pub open spec fn engine_error_text(e: EngineError) -> Seq<char> {
    match e {
        EngineError::CompilationError(tool, msg) => "[libra::compilation] "@ + tool_text(tool) + ": "@ + msg@,
        EngineError::LLVMLoadingError(msg) => "[libra::loading] "@ + msg@,
        EngineError::InvalidAssumption(msg) => "[libra::assumption] "@ + msg@,
        EngineError::NotSupportedYet(item) => "[libra::unsupported] "@ + unsupported_text(item),
        EngineError::InvariantViolation(msg) => "[libra::invariant] "@ + msg@,
    }
}

impl EngineError {
    /// The message of the error, as shown to users.
    pub fn describe(&self) -> (r: String)
        ensures
            r@ == engine_error_text(*self),
    {
        match self {
            EngineError::CompilationError(tool, msg) => {
                let t = tool.describe();
                let mut s = concat("[libra::compilation] ", t.as_str());
                s.append(": ");
                s.append(msg.as_str());
                s
            },
            EngineError::LLVMLoadingError(msg) => concat("[libra::loading] ", msg.as_str()),
            EngineError::InvalidAssumption(msg) => concat("[libra::assumption] ", msg.as_str()),
            EngineError::NotSupportedYet(item) => concat("[libra::unsupported] ", item.describe()),
            EngineError::InvariantViolation(msg) => concat("[libra::invariant] ", msg.as_str()),
        }
    }

    /// An invalid-assumption error whose message is `prefix` followed by `detail`.
    pub fn invalid_assumption(prefix: &str, detail: &str) -> (r: EngineError)
        ensures
            r matches EngineError::InvalidAssumption(m) && m@ == prefix@ + detail@,
    {
        EngineError::InvalidAssumption(concat(prefix, detail))
    }
}


/// The mathematical model of an [`EngineError`]: messages as character sequences.
pub enum Failure {
    Compilation(Tool, Seq<char>),
    Loading(Seq<char>),
    Assumption(Seq<char>),
    Unsupported(Unsupported),
    Invariant(Seq<char>),
}

impl EngineError {
    pub open spec fn failure(&self) -> Failure {
        match self {
            EngineError::CompilationError(tool, msg) => Failure::Compilation(*tool, msg@),
            EngineError::LLVMLoadingError(msg) => Failure::Loading(msg@),
            EngineError::InvalidAssumption(msg) => Failure::Assumption(msg@),
            EngineError::NotSupportedYet(item) => Failure::Unsupported(*item),
            EngineError::InvariantViolation(msg) => Failure::Invariant(msg@),
        }
    }
}

} // verus!
