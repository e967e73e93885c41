use vstd::prelude::*;

use crate::path::{join_path, joined_path};
use crate::text::{concat3, decimal_text, decimal_usize, texts};

verus! {

/// The tools, the pass and the files of an analysis run.
#[derive(Debug)]
pub struct Workflow {
    // llvm binaries
    pub bin_opt: String,
    pub bin_clang: String,
    pub bin_llvm_link: String,
    pub bin_llvm_dis: String,
    // llvm passes
    pub lib_pass: String,
    /// Source file
    pub inputs: Vec<String>,
    /// Workspace for the analysis
    pub output: String,
}

/// The path of a tool of an LLVM package.
pub open spec fn tool_path(pkg: Seq<char>, tool: Seq<char>) -> Seq<char> {
    joined_path(joined_path(pkg, "bin"@), tool)
}

/// The path of an LLVM tool (see [`tool_path`]).
fn llvm_tool(pkg: &str, tool: &str) -> (r: String)
    ensures
        r@ == tool_path(pkg@, tool@),
{
    let bin = join_path(pkg, "bin");
    join_path(bin.as_str(), tool)
}

impl Workflow {
    /// The run over `inputs` into the workspace `output`, with the tools of the
    /// LLVM package at `pkg_llvm` and the pass library at `lib_pass`.
    pub fn new(pkg_llvm: &str, lib_pass: &str, inputs: Vec<String>, output: String) -> (r: Self)
        ensures
            r.bin_opt@ == tool_path(pkg_llvm@, "opt"@),
            r.bin_clang@ == tool_path(pkg_llvm@, "clang"@),
            r.bin_llvm_link@ == tool_path(pkg_llvm@, "llvm-link"@),
            r.bin_llvm_dis@ == tool_path(pkg_llvm@, "llvm-dis"@),
            r.lib_pass@ == lib_pass@,
            r.inputs@ == inputs@,
            r.output@ == output@,
    {
        Workflow {
            bin_opt: llvm_tool(pkg_llvm, "opt"),
            bin_clang: llvm_tool(pkg_llvm, "clang"),
            bin_llvm_link: llvm_tool(pkg_llvm, "llvm-link"),
            bin_llvm_dis: llvm_tool(pkg_llvm, "llvm-dis"),
            lib_pass: lib_pass.to_owned(),
            inputs,
            output,
        }
    }

    /// The bitcode compiled from the input at `index`.
    pub fn get_init_bc_path(&self, index: usize) -> (r: String)
        ensures
            r@ == joined_path(self.output@, "init-"@ + decimal_text(index as nat) + ".bc"@),
    {
        let name = concat3("init-", decimal_usize(index).as_str(), ".bc");
        join_path(self.output.as_str(), name.as_str())
    }

    /// The bitcode that links all inputs.
    pub fn get_merged_bc_path(&self) -> (r: String)
        ensures
            r@ == joined_path(self.output@, "merged.bc"@),
    {
        join_path(self.output.as_str(), "merged.bc")
    }

    /// The serialized module of a step.
    pub fn get_serialized_path(&self, step: usize) -> (r: String)
        ensures
            r@ == joined_path(self.output@, "bitcode-"@ + decimal_text(step as nat) + ".json"@),
    {
        let name = concat3("bitcode-", decimal_usize(step).as_str(), ".json");
        join_path(self.output.as_str(), name.as_str())
    }
}


/// The flags that every compilation of a simple build hands to clang.
pub open spec fn preset_clang_flags() -> Seq<Seq<char>> {
    seq![
        "-g"@,
        "--language"@,
        "c"@,
        "-std=gnu17"@,
        "-Wno-c2x-extensions"@,
        "-fno-vectorize"@,
        "-Xclang"@,
        "-disable-O0-optnone"@,
    ]
}

/// The flags of a simple build: the preset ones, then the extra ones given.
pub fn clang_flags(extra: &Vec<String>) -> (r: Vec<String>)
    ensures
        texts(r@) == preset_clang_flags() + texts(extra@),
{
    let mut flags: Vec<String> = Vec::new();
    flags.push("-g".to_owned());
    flags.push("--language".to_owned());
    flags.push("c".to_owned());
    flags.push("-std=gnu17".to_owned());
    flags.push("-Wno-c2x-extensions".to_owned());
    flags.push("-fno-vectorize".to_owned());
    flags.push("-Xclang".to_owned());
    flags.push("-disable-O0-optnone".to_owned());
    let ghost head = texts(flags@);
    assert(head =~= preset_clang_flags());
    let mut i: usize = 0;
    while i < extra.len()
        invariant
            i <= extra@.len(),
            head == preset_clang_flags(),
            texts(flags@) == head + texts(extra@).take(i as int),
        decreases extra@.len() - i,
    {
        let ghost before = texts(flags@);
        flags.push(extra[i].clone());
        assert(texts(flags@) =~= before.push(extra@[i as int]@));
        assert(texts(extra@).take(i + 1) =~= texts(extra@).take(i as int).push(extra@[i as int]@));
        i = i + 1;
    }
    assert(texts(extra@).take(extra@.len() as int) =~= texts(extra@));
    flags
}

/// The bitcode of round `step` of the fixed-point optimization.
pub fn fixedpoint_step_path(output: &str, step: usize) -> (r: String)
    ensures
        r@ == joined_path(output@, "step-"@ + decimal_text(step as nat) + ".bc"@),
{
    let name = concat3("step-", decimal_usize(step).as_str(), ".bc");
    join_path(output, name.as_str())
}

/// Whether the fixed-point optimization stops for its bound: `rounds` modules are
/// recorded and the bound, where there is one, is exceeded.
pub fn rounds_exhausted(depth: Option<usize>, rounds: usize) -> (r: bool)
    ensures
        r == match depth {
            Some(limit) => rounds > limit,
            None => false,
        },
{
    match depth {
        Some(limit) => rounds > limit,
        None => false,
    }
}
} // verus!
