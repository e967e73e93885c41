use vstd::prelude::*;

use crate::path::{
    bitcode_path, bitcode_path_of, extension_of_path, join_path, joined_path, normalize_path,
    normalized_path, path_extension,
};
use crate::proxy::{
    arg_words, args_model, last_output, libmark_extension, libmark_extension_str, output_count,
    ArgModel, ClangArg, ClangInvocation,
};
use crate::text::{concat, concat3, join_with_spaces, join_words, str_eq, texts};

verus! {

/// System libraries that a link may name.
#[derive(Debug, Clone, Copy, PartialEq, Eq, Structural)]
pub enum SysLib {
    C,
    Math,
    POSIXThread,
}

/// File kinds told apart by extension.
#[derive(Debug, Clone, Copy, PartialEq, Eq, Structural)]
pub enum CommonExtensions {
    C,
    CPP,
    Asm,
    Object,
    LibStatic,
    LibShared,
}

/// The kind of file that an extension stands for, if known.
pub open spec fn extension_kind(ext: Seq<char>) -> Option<CommonExtensions> {
    if ext == "c"@ {
        Some(CommonExtensions::C)
    } else if ext == "cpp"@ || ext == "cc"@ {
        Some(CommonExtensions::CPP)
    } else if ext == "s"@ {
        Some(CommonExtensions::Asm)
    } else if ext == "o"@ {
        Some(CommonExtensions::Object)
    } else if ext == "a"@ {
        Some(CommonExtensions::LibStatic)
    } else if ext == "so"@ {
        Some(CommonExtensions::LibShared)
    } else {
        None
    }
}

/// The kind of file a path names, judged by its extension.
pub open spec fn path_kind(path: Seq<char>) -> Option<CommonExtensions> {
    match path_extension(path) {
        None => None,
        Some(e) => extension_kind(e),
    }
}

impl CommonExtensions {
    /// The kind of file a path names, judged by its extension (see [`path_kind`]).
    pub fn probe(path: &str) -> (r: Option<Self>)
        ensures
            r == path_kind(path@),
    {
        let ext = match extension_of_path(path) {
            None => {
                return None;
            },
            Some(e) => e,
        };
        let e = ext.as_str();
        if str_eq(e, "c") {
            Some(CommonExtensions::C)
        } else if str_eq(e, "cpp") || str_eq(e, "cc") {
            Some(CommonExtensions::CPP)
        } else if str_eq(e, "s") {
            Some(CommonExtensions::Asm)
        } else if str_eq(e, "o") {
            Some(CommonExtensions::Object)
        } else if str_eq(e, "a") {
            Some(CommonExtensions::LibStatic)
        } else if str_eq(e, "so") {
            Some(CommonExtensions::LibShared)
        } else {
            None
        }
    }
}

/// Libraries that a link uses: system ones and user ones (by path).
#[derive(Debug)]
pub struct Libraries {
    pub sys: Vec<SysLib>,
    pub usr: Vec<String>,
}

impl Default for Libraries {
    fn default() -> (r: Self)
        ensures
            r.sys@.len() == 0,
            r.usr@.len() == 0,
    {
        Libraries { sys: Vec::new(), usr: Vec::new() }
    }
}

/// A build action recorded from a compiler invocation
#[derive(Debug)]
pub enum Action {
    Compile { input: String, output: String, invocation: ClangInvocation },
    Link { inputs: Vec<String>, libs: Libraries, output: String, invocation: ClangInvocation },
    CompileAndLink { input: String, libs: Libraries, output: String, invocation: ClangInvocation },
}

/// The output of an action.
pub open spec fn action_output(a: Action) -> Seq<char> {
    match a {
        Action::Compile { output, .. } => output@,
        Action::Link { output, .. } => output@,
        Action::CompileAndLink { output, .. } => output@,
    }
}

impl Action {
    /// Retrieve the output of this action
    pub fn output(&self) -> (r: &str)
        ensures
            r@ == action_output(*self),
    {
        match self {
            Action::Compile { output, .. } => output.as_str(),
            Action::Link { output, .. } => output.as_str(),
            Action::CompileAndLink { output, .. } => output.as_str(),
        }
    }
}

/// Kinds of arguments that an action takes apart.
#[derive(Debug, Clone, Copy, PartialEq, Eq, Structural)]
pub enum ArgKind {
    /// `-o`
    Output,
    /// input files
    Input,
    /// `-c`
    Compile,
    /// arguments that only concern linking
    Link,
}

/// Whether an argument is of a kind.
pub open spec fn of_kind(k: ArgKind, a: ArgModel) -> bool {
    match k {
        ArgKind::Output => a is Output,
        ArgKind::Input => a is Input,
        ArgKind::Compile => a is ModeCompile,
        ArgKind::Link => a is LibName || a is LibPath || a is LinkStatic || a is LinkShared
            || a is LinkRpath || a is LinkSoname,
    }
}

/// The arguments of a kind, in order.
pub open spec fn taken_args(args: Seq<ArgModel>, k: ArgKind) -> Seq<ArgModel>
    decreases args.len(),
{
    if args.len() == 0 {
        Seq::empty()
    } else {
        let init = taken_args(args.drop_last(), k);
        if of_kind(k, args.last()) {
            init.push(args.last())
        } else {
            init
        }
    }
}

/// The arguments not of a kind, in order.
pub open spec fn kept_args(args: Seq<ArgModel>, k: ArgKind) -> Seq<ArgModel>
    decreases args.len(),
{
    if args.len() == 0 {
        Seq::empty()
    } else {
        let init = kept_args(args.drop_last(), k);
        if of_kind(k, args.last()) {
            init
        } else {
            init.push(args.last())
        }
    }
}

/// The values of the input arguments, in order.
pub open spec fn input_values(args: Seq<ArgModel>) -> Seq<Seq<char>>
    decreases args.len(),
{
    if args.len() == 0 {
        Seq::empty()
    } else {
        let init = input_values(args.drop_last());
        match args.last() {
            ArgModel::Input(v) => init.push(v),
            _ => init,
        }
    }
}

/// How many arguments are of a kind.
pub open spec fn count_of(args: Seq<ArgModel>, kind: spec_fn(ArgModel) -> bool) -> nat
    decreases args.len(),
{
    if args.len() == 0 {
        0
    } else {
        count_of(args.drop_last(), kind) + if kind(args.last()) {
            1nat
        } else {
            0nat
        }
    }
}

/// The system library a library name stands for, if any.
pub open spec fn sys_lib_of(name: Seq<char>) -> Option<SysLib> {
    if name == "c"@ {
        Some(SysLib::C)
    } else if name == "m"@ {
        Some(SysLib::Math)
    } else if name == "pthread"@ {
        Some(SysLib::POSIXThread)
    } else {
        None
    }
}

/// The system libraries that the library names stand for, in order.
pub open spec fn sys_libs(args: Seq<ArgModel>) -> Seq<SysLib>
    decreases args.len(),
{
    if args.len() == 0 {
        Seq::empty()
    } else {
        let init = sys_libs(args.drop_last());
        match args.last() {
            ArgModel::LibName(v) => match sys_lib_of(v) {
                Some(l) => init.push(l),
                None => init,
            },
            _ => init,
        }
    }
}

/// The names of the user libraries, in order.
pub open spec fn user_lib_names(args: Seq<ArgModel>) -> Seq<Seq<char>>
    decreases args.len(),
{
    if args.len() == 0 {
        Seq::empty()
    } else {
        let init = user_lib_names(args.drop_last());
        match args.last() {
            ArgModel::LibName(v) => if sys_lib_of(v) is None {
                init.push(v)
            } else {
                init
            },
            _ => init,
        }
    }
}

/// The library directories, in order, each resolved against `cwd`.
pub open spec fn lib_dirs(args: Seq<ArgModel>, cwd: Seq<char>) -> Seq<Seq<char>>
    decreases args.len(),
{
    if args.len() == 0 {
        Seq::empty()
    } else {
        let init = lib_dirs(args.drop_last(), cwd);
        match args.last() {
            ArgModel::LibPath(v) => init.push(joined_path(cwd, v)),
            _ => init,
        }
    }
}

/// The libraries that the linking arguments of an invocation ask for: the system
/// ones, and the user ones by name, with the directories to look in.
#[derive(Debug)]
pub struct LinkRequest {
    pub has_linking_flags: bool,
    pub sys: Vec<SysLib>,
    pub names: Vec<String>,
    pub dirs: Vec<String>,
}

/// The same invocation with other arguments.
pub open spec fn with_args(inv: ClangInvocation, out: ClangInvocation, args: Seq<ArgModel>) -> bool {
    out.cwd@ == inv.cwd@ && out.cxx == inv.cxx && args_model(out.args@) == args
}


impl ArgKind {
    /// Whether an argument is of this kind.
    pub fn holds_for(&self, a: &ClangArg) -> (r: bool)
        ensures
            r == of_kind(*self, a.model()),
    {
        match self {
            ArgKind::Output => matches!(a, ClangArg::Output(_)),
            ArgKind::Input => matches!(a, ClangArg::Input(_)),
            ArgKind::Compile => matches!(a, ClangArg::ModeCompile),
            ArgKind::Link => match a {
                ClangArg::LibName(_) => true,
                ClangArg::LibPath(_) => true,
                ClangArg::LinkStatic => true,
                ClangArg::LinkShared => true,
                ClangArg::LinkRpath(_) => true,
                ClangArg::LinkSoname(_) => true,
                _ => false,
            },
        }
    }
}

/// Separates the arguments of a kind from the others, keeping the order of each.
pub fn split_args(args: &Vec<ClangArg>, k: ArgKind) -> (r: (Vec<ClangArg>, Vec<ClangArg>))
    ensures
        args_model(r.0@) == kept_args(args_model(args@), k),
        args_model(r.1@) == taken_args(args_model(args@), k),
{
    let ghost all = args_model(args@);
    let mut kept: Vec<ClangArg> = Vec::new();
    let mut taken: Vec<ClangArg> = Vec::new();
    let mut i: usize = 0;
    assert(all.take(0) =~= Seq::<ArgModel>::empty());
    assert(args_model(kept@) =~= Seq::<ArgModel>::empty());
    while i < args.len()
        invariant
            i <= args@.len(),
            all == args_model(args@),
            args_model(kept@) == kept_args(all.take(i as int), k),
            args_model(taken@) == taken_args(all.take(i as int), k),
        decreases args@.len() - i,
    {
        let item = args[i].duplicate();
        let ghost m = args@[i as int].model();
        proof {
            assert(all.take(i + 1).drop_last() =~= all.take(i as int));
            assert(all.take(i + 1).last() == m);
        }
        if k.holds_for(&item) {
            let ghost before = taken@;
            taken.push(item);
            proof {
                assert(args_model(taken@) =~= args_model(before).push(m));
            }
        } else {
            let ghost before = kept@;
            kept.push(item);
            proof {
                assert(args_model(kept@) =~= args_model(before).push(m));
            }
        }
        i = i + 1;
    }
    assert(all.take(args@.len() as int) =~= all);
    (kept, taken)
}

/// The value of an output or input argument.
pub open spec fn file_value(a: ArgModel) -> Seq<char> {
    match a {
        ArgModel::Output(v) => v,
        ArgModel::Input(v) => v,
        _ => Seq::empty(),
    }
}

/// The file an output or input argument names.
fn file_of(a: &ClangArg) -> (r: String)
    ensures
        r@ == file_value(a.model()),
{
    match a {
        ClangArg::Output(v) => v.clone(),
        ClangArg::Input(v) => v.clone(),
        _ => String::new(),
    }
}

/// The invocation with other arguments.
fn repack(inv: &ClangInvocation, args: Vec<ClangArg>) -> (r: ClangInvocation)
    ensures
        r.cwd@ == inv.cwd@,
        r.cxx == inv.cxx,
        r.args@ == args@,
{
    ClangInvocation { cwd: inv.cwd.clone(), cxx: inv.cxx, args }
}

impl Action {
    /// Separates the output of an invocation: the invocation without it, and the
    /// path it names; an error where there is none.
    pub fn filter_args_for_output(invocation: &ClangInvocation) -> (r: Result<(ClangInvocation, String), String>)
        requires
            taken_args(args_model(invocation.args@), ArgKind::Output).len() <= 1,
        ensures
            ({
                let outs = taken_args(args_model(invocation.args@), ArgKind::Output);
                if outs.len() == 0 {
                    r matches Err(e) && e@ == "no output in the invocation"@
                } else {
                    r matches Ok((inv, out)) && out@ == normalized_path(invocation.cwd@, file_value(outs[0]))
                        && with_args(
                        *invocation,
                        inv,
                        kept_args(args_model(invocation.args@), ArgKind::Output),
                    )
                }
            }),
    {
        let (kept, taken) = split_args(&invocation.args, ArgKind::Output);
        if taken.len() == 0 {
            return Err("no output in the invocation".to_owned());
        }
        let file = file_of(&taken[0]);
        let out = normalize_path(invocation.cwd.as_str(), file.as_str());
        Ok((repack(invocation, kept), out))
    }

    /// Separates the inputs of an invocation: the invocation without them, and the
    /// paths they name, in order; an error where there are none.
    pub fn filter_args_for_inputs(invocation: &ClangInvocation) -> (r: Result<(ClangInvocation, Vec<String>), String>)
        ensures
            ({
                let ins = taken_args(args_model(invocation.args@), ArgKind::Input);
                if ins.len() == 0 {
                    r matches Err(e) && e@ == "no inputs in the invocation"@
                } else {
                    r matches Ok((inv, files)) && texts(files@) == ins.map_values(
                        |a: ArgModel| normalized_path(invocation.cwd@, file_value(a)),
                    )
                        && with_args(*invocation, inv, kept_args(args_model(invocation.args@), ArgKind::Input))
                }
            }),
    {
        let (kept, taken) = split_args(&invocation.args, ArgKind::Input);
        if taken.len() == 0 {
            return Err("no inputs in the invocation".to_owned());
        }
        let mut files: Vec<String> = Vec::new();
        let mut i: usize = 0;
        while i < taken.len()
            invariant
                i <= taken@.len(),
                texts(files@) == args_model(taken@).take(i as int).map_values(
                    |a: ArgModel| normalized_path(invocation.cwd@, file_value(a)),
                ),
            decreases taken@.len() - i,
        {
            let raw = file_of(&taken[i]);
            let f = normalize_path(invocation.cwd.as_str(), raw.as_str());
            let ghost before = texts(files@);
            files.push(f);
            proof {
                assert(texts(files@) =~= before.push(f@));
                let norm = |a: ArgModel| normalized_path(invocation.cwd@, file_value(a));
                assert(args_model(taken@).take(i + 1).map_values(norm) =~= args_model(taken@).take(
                    i as int,
                ).map_values(norm).push(norm(taken@[i as int].model())));
            }
            i = i + 1;
        }
        assert(args_model(taken@).take(taken@.len() as int) =~= args_model(taken@));
        Ok((repack(invocation, kept), files))
    }

    /// Separates the compile-only flag: the invocation without it, and whether it
    /// was given; an error where it was given more than once.
    pub fn filter_args_for_mode_compile(invocation: &ClangInvocation) -> (r: Result<(ClangInvocation, bool), String>)
        ensures
            ({
                let flags = taken_args(args_model(invocation.args@), ArgKind::Compile);
                if flags.len() > 1 {
                    r matches Err(e) && e@ == "-c specified multiple times"@
                } else {
                    r matches Ok((inv, compile_only)) && compile_only == (flags.len() == 1) && with_args(
                        *invocation,
                        inv,
                        kept_args(args_model(invocation.args@), ArgKind::Compile),
                    )
                }
            }),
    {
        let (kept, taken) = split_args(&invocation.args, ArgKind::Compile);
        if taken.len() > 1 {
            return Err("-c specified multiple times".to_owned());
        }
        Ok((repack(invocation, kept), taken.len() == 1))
    }
}

/// The model of a list of system libraries.
pub open spec fn libraries_model(l: Libraries) -> (Seq<SysLib>, Seq<Seq<char>>) {
    (l.sys@, texts(l.usr@))
}

impl Action {
    /// Separates the linking arguments: the invocation without them, and the
    /// libraries they ask for (the user libraries are yet to be looked up).
    pub fn filter_args_for_mode_link(invocation: &ClangInvocation) -> (r: (ClangInvocation, LinkRequest))
        ensures
            with_args(*invocation, r.0, kept_args(args_model(invocation.args@), ArgKind::Link)),
            r.1.has_linking_flags == (taken_args(args_model(invocation.args@), ArgKind::Link).len() > 0),
            r.1.sys@ == sys_libs(args_model(invocation.args@)),
            texts(r.1.names@) == user_lib_names(args_model(invocation.args@)),
            texts(r.1.dirs@) == lib_dirs(args_model(invocation.args@), invocation.cwd@),
    {
        let (kept, taken) = split_args(&invocation.args, ArgKind::Link);
        let ghost all = args_model(invocation.args@);
        let mut sys: Vec<SysLib> = Vec::new();
        let mut names: Vec<String> = Vec::new();
        let mut dirs: Vec<String> = Vec::new();
        let mut i: usize = 0;
        assert(all.take(0) =~= Seq::<ArgModel>::empty());
        assert(texts(names@) =~= Seq::<Seq<char>>::empty());
        assert(texts(dirs@) =~= Seq::<Seq<char>>::empty());
        while i < invocation.args.len()
            invariant
                i <= invocation.args@.len(),
                all == args_model(invocation.args@),
                sys@ == sys_libs(all.take(i as int)),
                texts(names@) == user_lib_names(all.take(i as int)),
                texts(dirs@) == lib_dirs(all.take(i as int), invocation.cwd@),
            decreases invocation.args@.len() - i,
        {
            proof {
                assert(all.take(i + 1).drop_last() =~= all.take(i as int));
                assert(all.take(i + 1).last() == invocation.args@[i as int].model());
            }
            match &invocation.args[i] {
                ClangArg::LibName(v) => {
                    let n = v.as_str();
                    if str_eq(n, "c") {
                        sys.push(SysLib::C);
                    } else if str_eq(n, "m") {
                        sys.push(SysLib::Math);
                    } else if str_eq(n, "pthread") {
                        sys.push(SysLib::POSIXThread);
                    } else {
                        let ghost before = texts(names@);
                        names.push(v.clone());
                        proof {
                            assert(texts(names@) =~= before.push(v@));
                        }
                    }
                },
                ClangArg::LibPath(v) => {
                    let ghost before = texts(dirs@);
                    let resolved = join_path(invocation.cwd.as_str(), v.as_str());
                    dirs.push(resolved);
                    proof {
                        assert(texts(dirs@) =~= before.push(joined_path(invocation.cwd@, v@)));
                    }
                },
                _ => {},
            }
            i = i + 1;
        }
        assert(all.take(invocation.args@.len() as int) =~= all);
        let request = LinkRequest { has_linking_flags: taken.len() > 0, sys, names, dirs };
        (repack(invocation, kept), request)
    }
}

/// The name of the mark file that stands for a user library.
pub open spec fn library_mark(name: Seq<char>) -> Seq<char> {
    "lib"@ + name + libmark_extension()
}

/// The name of the mark file that stands for a user library (see [`library_mark`]).
pub fn library_mark_name(name: &str) -> (r: String)
    ensures
        r@ == library_mark(name@),
{
    concat3("lib", name, libmark_extension_str())
}

/// Picks the one mark file found for a user library: an error where none or
/// more than one was found.
pub fn choose_library(name: &str, found: &Vec<String>) -> (r: Result<String, String>)
    ensures
        found@.len() == 0 ==> (r matches Err(e) && e@ == "library "@ + name@ + " not found"@),
        found@.len() > 1 ==> (r matches Err(e) && e@ == "more than one candidate found for library "@
            + name@),
        found@.len() == 1 ==> (r matches Ok(p) && p@ == found@[0]@),
{
    if found.len() == 0 {
        Err(concat3("library ", name, " not found"))
    } else if found.len() > 1 {
        Err(concat("more than one candidate found for library ", name))
    } else {
        Ok(found[0].clone())
    }
}

/// How an action is decided from the parts of an invocation: compile-only, it
/// compiles its one input; otherwise a single source input is compiled and
/// linked, a single object or library is linked, and several inputs are linked.
/// The error message where no action fits.
pub open spec fn decided_kind(
    inputs: Seq<Seq<char>>,
    compile_only: bool,
    has_libs: bool,
) -> Result<nat, Seq<char>> {
    if compile_only {
        if has_libs {
            Err("unexpected linking flags in compile-only mode"@)
        } else if inputs.len() != 1 {
            Err("more than one inputs in compile-only mode "@)
        } else {
            Ok(0)
        }
    } else if inputs.len() == 1 {
        match path_kind(inputs[0]) {
            None => Err("unable to guess the action for single-file invocation: "@ + inputs[0]),
            Some(k) => match k {
                CommonExtensions::C | CommonExtensions::CPP | CommonExtensions::Asm => Ok(2),
                _ => Ok(1),
            },
        }
    } else {
        Ok(1)
    }
}

/// The kind of an action: 0 to compile, 1 to link, 2 to compile and link.
pub open spec fn action_kind(a: Action) -> nat {
    match a {
        Action::Compile { .. } => 0,
        Action::Link { .. } => 1,
        Action::CompileAndLink { .. } => 2,
    }
}

/// The invocation of an action.
pub open spec fn action_invocation(a: Action) -> ClangInvocation {
    match a {
        Action::Compile { invocation, .. } => invocation,
        Action::Link { invocation, .. } => invocation,
        Action::CompileAndLink { invocation, .. } => invocation,
    }
}

/// The input files of an action, in order.
pub open spec fn action_inputs(a: Action) -> Seq<Seq<char>> {
    match a {
        Action::Compile { input, .. } => seq![input@],
        Action::Link { inputs, .. } => texts(inputs@),
        Action::CompileAndLink { input, .. } => seq![input@],
    }
}

/// The libraries of an action (none for a compilation).
pub open spec fn action_libraries(a: Action) -> (Seq<SysLib>, Seq<Seq<char>>) {
    match a {
        Action::Compile { .. } => (Seq::empty(), Seq::empty()),
        Action::Link { libs, .. } => libraries_model(libs),
        Action::CompileAndLink { libs, .. } => libraries_model(libs),
    }
}

impl Action {
    /// Decides the action of an invocation from its parts (see [`decided_kind`]):
    /// the invocation without its output, inputs and mode and linking arguments,
    /// its output, its inputs, whether it compiles only, and its libraries, if it
    /// has linking arguments.
    pub fn decide(
        invocation: ClangInvocation,
        output: String,
        inputs: Vec<String>,
        is_compile_only: bool,
        libs: Option<Libraries>,
    ) -> (r: Result<Action, String>)
        ensures
            match decided_kind(texts(inputs@), is_compile_only, libs is Some) {
                Err(e) => r matches Err(m) && m@ == e,
                Ok(k) => r matches Ok(a) && action_kind(a) == k && action_output(a) == output@
                    && action_invocation(a) == invocation && action_inputs(a) == texts(inputs@)
                    && action_libraries(a) == match libs {
                    Some(l) => libraries_model(l),
                    None => (Seq::<SysLib>::empty(), Seq::<Seq<char>>::empty()),
                },
            },
    {
        if is_compile_only {
            if libs.is_some() {
                return Err("unexpected linking flags in compile-only mode".to_owned());
            }
            if inputs.len() != 1 {
                return Err("more than one inputs in compile-only mode ".to_owned());
            }
            let input = inputs[0].clone();
            proof {
                assert(texts(inputs@) =~= seq![input@]);
            }
            return Ok(Action::Compile { input, output, invocation });
        }
        let libs = match libs {
            Some(l) => l,
            None => {
                let d = Libraries::default();
                proof {
                    assert(libraries_model(d).0 =~= Seq::<SysLib>::empty());
                    assert(libraries_model(d).1 =~= Seq::<Seq<char>>::empty());
                }
                d
            },
        };
        if inputs.len() == 1 {
            let input = inputs[0].clone();
            proof {
                assert(texts(inputs@) =~= seq![input@]);
            }
            match CommonExtensions::probe(input.as_str()) {
                None => Err(
                    concat("unable to guess the action for single-file invocation: ", input.as_str()),
                ),
                Some(kind) => match kind {
                    CommonExtensions::C | CommonExtensions::CPP | CommonExtensions::Asm => Ok(
                        Action::CompileAndLink { input, libs, output, invocation },
                    ),
                    _ => Ok(Action::Link { inputs, libs, output, invocation }),
                },
            }
        } else {
            Ok(Action::Link { inputs, libs, output, invocation })
        }
    }
}

/// Arguments handed on to the compiler that emits bitcode.
pub open spec fn passes_through(a: ArgModel) -> bool {
    a is Standard || a is Define || a is Include || a is IncludeSysroot || a is Arch || a is MachineArch
        || a is Debug || a is FlagPIC || a is FlagPIE || a is FlagRTTI || a is FlagExceptions
        || a is Warning || a is NoWarnings || a is Pedantic || a is POSIXThread
}

/// Arguments left out of the command that emits bitcode.
pub open spec fn left_out(a: ArgModel) -> bool {
    a is Optimization || a is PrepMD || a is PrepMP || a is PrepMF || a is Print
}

/// The words that the arguments of a compilation contribute to the command that
/// emits bitcode; the error for the first argument that has no place there.
pub open spec fn compile_words(args: Seq<ArgModel>, tool: Seq<char>) -> Result<Seq<Seq<char>>, Seq<char>>
    decreases args.len(),
{
    if args.len() == 0 {
        Ok(Seq::empty())
    } else {
        match compile_words(args.drop_last(), tool) {
            Err(e) => Err(e),
            Ok(ws) => {
                let a = args.last();
                if passes_through(a) {
                    Ok(ws + arg_words(a))
                } else if left_out(a) {
                    Ok(ws)
                } else {
                    Err("unexpected "@ + tool + " option: "@ + join_words(arg_words(a)))
                }
            },
        }
    }
}

/// The name of the compiler of an invocation.
pub open spec fn tool_name(cxx: bool) -> Seq<char> {
    if cxx {
        "clang++"@
    } else {
        "clang"@
    }
}

/// The arguments of the command that compiles an input into bitcode next to the
/// output: `-c -emit-llvm`, the arguments handed on, `-o`, the bitcode path, the input.
pub open spec fn bitcode_command(input: Seq<char>, output: Seq<char>, inv: ClangInvocation) -> Result<
    Seq<Seq<char>>,
    Seq<char>,
> {
    match compile_words(args_model(inv.args@), tool_name(inv.cxx)) {
        Err(e) => Err(e),
        Ok(ws) => Ok(seq!["-c"@, "-emit-llvm"@] + ws + seq!["-o"@, bitcode_path_of(output), input]),
    }
}

impl Action {
    /// The arguments of the command that turns a compilation into bitcode (see
    /// [`bitcode_command`]).
    pub fn bitcode_args(&self) -> (r: Result<Vec<String>, String>)
        requires
            action_kind(*self) == 0,
        ensures
            match *self {
                Action::Compile { input, output, invocation } => match bitcode_command(
                    input@,
                    output@,
                    invocation,
                ) {
                    Err(e) => r matches Err(m) && m@ == e,
                    Ok(ws) => r matches Ok(v) && texts(v@) == ws,
                },
                _ => false,
            },
    {
        match self {
            Action::Compile { input, output, invocation } => {
                let tool = if invocation.cxx {
                    "clang++"
                } else {
                    "clang"
                };
                proof {
                    reveal_strlit("clang++");
                    reveal_strlit("clang");
                }
                let ghost all = args_model(invocation.args@);
                let mut words: Vec<String> = Vec::new();
                words.push("-c".to_owned());
                words.push("-emit-llvm".to_owned());
                let ghost head = texts(words@);
                assert(head =~= seq!["-c"@, "-emit-llvm"@]);
                let mut i: usize = 0;
                assert(all.take(0) =~= Seq::<ArgModel>::empty());
                assert(head + Seq::<Seq<char>>::empty() =~= head);
                while i < invocation.args.len()
                    invariant
                        i <= invocation.args@.len(),
                        all == args_model(invocation.args@),
                        tool@ == tool_name(invocation.cxx),
                        head == seq!["-c"@, "-emit-llvm"@],
                        *self matches Action::Compile { input: i2, output: o2, invocation: v2 } && i2
                            == *input && o2 == *output && v2 == *invocation,
                        compile_words(all.take(i as int), tool@) matches Ok(ws) && texts(words@) == head + ws,
                    decreases invocation.args@.len() - i,
                {
                    let a = &invocation.args[i];
                    let ghost m = a.model();
                    proof {
                        assert(all.take(i + 1).drop_last() =~= all.take(i as int));
                        assert(all.take(i + 1).last() == m);
                    }
                    let pass = match a {
                        ClangArg::Standard(_) | ClangArg::Define(_, _) | ClangArg::Include(_)
                        | ClangArg::IncludeSysroot(_) | ClangArg::Arch(_) | ClangArg::MachineArch(_)
                        | ClangArg::Debug | ClangArg::FlagPIC(_) | ClangArg::FlagPIE(_)
                        | ClangArg::FlagRTTI(_) | ClangArg::FlagExceptions(_) | ClangArg::Warning(_, _)
                        | ClangArg::NoWarnings | ClangArg::Pedantic | ClangArg::POSIXThread => true,
                        _ => false,
                    };
                    let skip = match a {
                        ClangArg::Optimization(_) | ClangArg::PrepMD | ClangArg::PrepMP
                        | ClangArg::PrepMF(_) | ClangArg::Print(_, _) => true,
                        _ => false,
                    };
                    assert(pass == passes_through(m));
                    assert(skip == left_out(m));
                    if pass {
                        let more = a.as_args();
                        let ghost before = texts(words@);
                        let mut k: usize = 0;
                        while k < more.len()
                            invariant
                                k <= more@.len(),
                                texts(words@) == before + texts(more@).take(k as int),
                            decreases more@.len() - k,
                        {
                            let ghost prev = texts(words@);
                            words.push(more[k].clone());
                            proof {
                                assert(texts(more@).take(k + 1) =~= texts(more@).take(k as int).push(
                                    more@[k as int]@,
                                ));
                                assert(texts(words@) =~= prev.push(more@[k as int]@));
                            }
                            k = k + 1;
                        }
                        proof {
                            assert(texts(more@).take(more@.len() as int) =~= texts(more@));
                            let ws = compile_words(all.take(i as int), tool@)->Ok_0;
                            assert(texts(words@) =~= head + (ws + arg_words(m)));
                        }
                    } else if !skip {
                        proof {
                            lemma_compile_words_prefix(all, tool@, i + 1);
                        }
                        let text = a.describe();
                        let mut msg = concat3("unexpected ", tool, " option: ");
                        msg.append(text.as_str());
                        return Err(msg);
                    }
                    i = i + 1;
                }
                assert(all.take(invocation.args@.len() as int) =~= all);
                let ghost before = texts(words@);
                words.push("-o".to_owned());
                words.push(bitcode_path(output.as_str()));
                words.push(input.clone());
                proof {
                    let ws = compile_words(all, tool@)->Ok_0;
                    assert(texts(words@) =~= seq!["-c"@, "-emit-llvm"@] + ws + seq![
                        "-o"@,
                        bitcode_path_of(output@),
                        input@,
                    ]);
                }
                Ok(words)
            },
            _ => {
                proof {
                    assert(false);
                }
                Err(String::new())
            },
        }
    }
}

pub proof fn lemma_compile_words_prefix(args: Seq<ArgModel>, tool: Seq<char>, i: int)
    requires
        0 <= i <= args.len(),
        compile_words(args.take(i), tool) is Err,
    ensures
        compile_words(args, tool) == compile_words(args.take(i), tool),
    decreases args.len() - i,
{
    if i < args.len() {
        assert(args.take(i + 1).drop_last() =~= args.take(i));
        lemma_compile_words_prefix(args, tool, i + 1);
    } else {
        assert(args.take(i) =~= args);
    }
}

/// An order of the nodes `0..n`, each once, in which every edge leads forward.
pub open spec fn is_topological(n: nat, edges: Seq<(usize, usize)>, order: Seq<usize>) -> bool {
    &&& order.len() == n
    &&& forall|i: int| 0 <= i < order.len() ==> #[trigger] order[i] < n
    &&& forall|i: int, j: int| 0 <= i < j < order.len() ==> order[i] != order[j]
    &&& forall|e: int, i: int, j: int|
        #![trigger edges[e], order[i], order[j]]
        0 <= e < edges.len() && 0 <= i < order.len() && 0 <= j < order.len() && order[i] == edges[e].0
            && order[j] == edges[e].1 ==> i < j
}

/// The order in which `petgraph::algo::toposort` lists the nodes `0..n` of a
/// `DiGraph` built with these edges, added in order; nothing where it reports a
/// cycle.
pub uninterp spec fn toposort_order(n: usize, edges: Seq<(usize, usize)>) -> Option<Seq<usize>>;

/// Sorts the nodes `0..n` of a directed graph topologically, with
/// `petgraph::algo::toposort` on a `DiGraph` holding the nodes and edges. The
/// order it picks is named by [`toposort_order`]; its documentation promises an
/// order in which each node comes before its successors where the graph is
/// acyclic, and an error where it is not; its source lists each node once.
#[verifier::external_body]
fn topological_order(n: usize, edges: &Vec<(usize, usize)>) -> (r: Option<Vec<usize>>)
    requires
        n < u32::MAX,
        edges@.len() < u32::MAX,
        forall|e: int| 0 <= e < edges@.len() ==> #[trigger] edges@[e].0 < n && edges@[e].1 < n,
    ensures
        match r {
            Some(order) => toposort_order(n, edges@) == Some(order@) && is_topological(n as nat, edges@, order@),
            None => toposort_order(n, edges@) is None && !(exists|order: Seq<usize>| is_topological(n as nat, edges@, order)),
        },
{
    let mut graph = petgraph::graph::DiGraph::<(), ()>::new();
    for _ in 0..n {
        graph.add_node(());
    }
    for (u, v) in edges.iter() {
        graph.add_edge(petgraph::graph::NodeIndex::new(*u), petgraph::graph::NodeIndex::new(*v), ());
    }
    let sorted = petgraph::algo::toposort(&graph, None).ok()?;
    let mut order = Vec::new();
    for x in sorted {
        order.push(x.index());
    }
    Some(order)
}

/// The position of the first repeated output: the least position whose output
/// an earlier one has.
pub open spec fn first_repeated(outs: Seq<Seq<char>>) -> Option<int>
    decreases outs.len(),
{
    if outs.len() == 0 {
        None
    } else {
        match first_repeated(outs.drop_last()) {
            Some(i) => Some(i),
            None => if outs.drop_last().contains(outs.last()) {
                Some(outs.len() - 1)
            } else {
                None
            },
        }
    }
}

/// The first position of `p` in `outs`, if any.
pub open spec fn position_of(outs: Seq<Seq<char>>, p: Seq<char>) -> Option<int>
    decreases outs.len(),
{
    if outs.len() == 0 {
        None
    } else {
        match position_of(outs.drop_last(), p) {
            Some(i) => Some(i),
            None => if outs.last() == p {
                Some(outs.len() - 1)
            } else {
                None
            },
        }
    }
}

/// The edges from the actions that produce the inputs of action `k` to it, in the
/// order of the inputs; the error for the first input that no action produces.
pub open spec fn input_edges(inputs: Seq<Seq<char>>, k: usize, outs: Seq<Seq<char>>) -> Result<
    Seq<(usize, usize)>,
    Seq<char>,
>
    decreases inputs.len(),
{
    if inputs.len() == 0 {
        Ok(Seq::empty())
    } else {
        match input_edges(inputs.drop_last(), k, outs) {
            Err(e) => Err(e),
            Ok(es) => match position_of(outs, inputs.last()) {
                None => Err("linker input does not exist: "@ + inputs.last()),
                Some(i) => Ok(es.push((i as usize, k))),
            },
        }
    }
}

/// The edges of the build graph: from each action that produces an input of a
/// link to the link, for the links in order; the error for the first input that
/// no action produces.
pub open spec fn build_edges(actions: Seq<Action>, outs: Seq<Seq<char>>) -> Result<Seq<(usize, usize)>, Seq<char>>
    decreases actions.len(),
{
    if actions.len() == 0 {
        Ok(Seq::empty())
    } else {
        match build_edges(actions.drop_last(), outs) {
            Err(e) => Err(e),
            Ok(es) => match actions.last() {
                Action::Link { inputs, .. } => match input_edges(texts(inputs@), (actions.len() - 1) as usize, outs) {
                    Err(e) => Err(e),
                    Ok(more) => Ok(es + more),
                },
                _ => Ok(es),
            },
        }
    }
}

/// The outputs of the actions, in order.
pub open spec fn action_outputs(actions: Seq<Action>) -> Seq<Seq<char>> {
    actions.map_values(|a: Action| action_output(a))
}

/// How many inputs the links have in all.
pub open spec fn link_input_count(actions: Seq<Action>) -> nat
    decreases actions.len(),
{
    if actions.len() == 0 {
        0
    } else {
        link_input_count(actions.drop_last()) + match actions.last() {
            Action::Link { inputs, .. } => inputs@.len(),
            _ => 0,
        }
    }
}

pub proof fn lemma_build_edges_prefix(actions: Seq<Action>, outs: Seq<Seq<char>>, i: int)
    requires
        0 <= i <= actions.len(),
        build_edges(actions.take(i), outs) is Err,
    ensures
        build_edges(actions, outs) == build_edges(actions.take(i), outs),
    decreases actions.len() - i,
{
    if i < actions.len() {
        assert(actions.take(i + 1).drop_last() =~= actions.take(i));
        lemma_build_edges_prefix(actions, outs, i + 1);
    } else {
        assert(actions.take(i) =~= actions);
    }
}

pub proof fn lemma_input_edges_prefix(inputs: Seq<Seq<char>>, k: usize, outs: Seq<Seq<char>>, i: int)
    requires
        0 <= i <= inputs.len(),
        input_edges(inputs.take(i), k, outs) is Err,
    ensures
        input_edges(inputs, k, outs) == input_edges(inputs.take(i), k, outs),
    decreases inputs.len() - i,
{
    if i < inputs.len() {
        assert(inputs.take(i + 1).drop_last() =~= inputs.take(i));
        lemma_input_edges_prefix(inputs, k, outs, i + 1);
    } else {
        assert(inputs.take(i) =~= inputs);
    }
}

pub proof fn lemma_repeated_prefix(outs: Seq<Seq<char>>, i: int)
    requires
        0 <= i <= outs.len(),
        first_repeated(outs.take(i)) is Some,
    ensures
        first_repeated(outs) == first_repeated(outs.take(i)),
    decreases outs.len() - i,
{
    if i < outs.len() {
        assert(outs.take(i + 1).drop_last() =~= outs.take(i));
        lemma_repeated_prefix(outs, i + 1);
    } else {
        assert(outs.take(i) =~= outs);
    }
}

pub proof fn lemma_link_count_prefix(actions: Seq<Action>, i: int)
    requires
        0 <= i <= actions.len(),
    ensures
        link_input_count(actions.take(i)) <= link_input_count(actions),
    decreases actions.len() - i,
{
    if i < actions.len() {
        assert(actions.take(i + 1).drop_last() =~= actions.take(i));
        lemma_link_count_prefix(actions, i + 1);
    } else {
        assert(actions.take(i) =~= actions);
    }
}

/// The first position of `p` among the outputs, if any (see [`position_of`]).
fn find_output(outs: &Vec<String>, p: &str) -> (r: Option<usize>)
    ensures
        match position_of(texts(outs@), p@) {
            Some(i) => r == Some(i as usize),
            None => r is None,
        },
        r matches Some(i) ==> i < outs@.len(),
{
    let ghost all = texts(outs@);
    let mut i: usize = 0;
    assert(all.take(0) =~= Seq::<Seq<char>>::empty());
    while i < outs.len()
        invariant
            i <= outs@.len(),
            all == texts(outs@),
            position_of(all.take(i as int), p@) is None,
        decreases outs@.len() - i,
    {
        proof {
            assert(all.take(i + 1).drop_last() =~= all.take(i as int));
        }
        if str_eq(outs[i].as_str(), p) {
            proof {
                lemma_position_prefix(all, p@, i + 1);
            }
            return Some(i);
        }
        i = i + 1;
    }
    assert(all.take(outs@.len() as int) =~= all);
    None
}

pub proof fn lemma_position_prefix(outs: Seq<Seq<char>>, p: Seq<char>, i: int)
    requires
        0 <= i <= outs.len(),
        position_of(outs.take(i), p) is Some,
    ensures
        position_of(outs, p) == position_of(outs.take(i), p),
    decreases outs.len() - i,
{
    if i < outs.len() {
        assert(outs.take(i + 1).drop_last() =~= outs.take(i));
        lemma_position_prefix(outs, p, i + 1);
    } else {
        assert(outs.take(i) =~= outs);
    }
}

proof fn lemma_position_bound(outs: Seq<Seq<char>>, p: Seq<char>)
    ensures
        position_of(outs, p) matches Some(i) ==> 0 <= i < outs.len(),
    decreases outs.len(),
{
    if outs.len() > 0 {
        lemma_position_bound(outs.drop_last(), p);
    }
}

/// Orders the actions of a build for the whole-program bitcode: outputs must be
/// distinct, every input of a link must be the output of an action, and the
/// graph from the actions producing inputs to the links using them must be
/// acyclic; the actions then come in a topological order of that graph.
pub fn build_order(actions: &Vec<Action>) -> (r: Result<Vec<usize>, String>)
    requires
        actions@.len() < u32::MAX,
        link_input_count(actions@) < u32::MAX,
    ensures
        ({
            let outs = action_outputs(actions@);
            match first_repeated(outs) {
                Some(i) => r matches Err(m) && m@ == "output defined multiple times: "@ + outs[i],
                None => match build_edges(actions@, outs) {
                    Err(e) => r matches Err(m) && m@ == e,
                    Ok(es) => match r {
                        Ok(order) => is_topological(actions@.len() as nat, es, order@) && toposort_order(
                            actions@.len() as usize,
                            es,
                        ) == Some(order@),
                        Err(m) => m@ == "expect a DAG in the build graph"@ && toposort_order(actions@.len() as usize, es)
                            is None && !(exists|order: Seq<usize>| is_topological(actions@.len() as nat, es, order)),
                    },
                },
            }
        }),
{
    let n = actions.len();
    let mut outs: Vec<String> = Vec::new();
    let mut i: usize = 0;
    while i < n
        invariant
            n == actions@.len(),
            i <= n,
            texts(outs@) == action_outputs(actions@).take(i as int),
        decreases n - i,
    {
        let ghost before = texts(outs@);
        outs.push(actions[i].output().to_owned());
        proof {
            assert(texts(outs@) =~= before.push(action_output(actions@[i as int])));
            assert(action_outputs(actions@).take(i + 1) =~= action_outputs(actions@).take(i as int).push(
                action_output(actions@[i as int]),
            ));
        }
        i = i + 1;
    }
    let ghost all = action_outputs(actions@);
    assert(all.take(n as int) =~= all);
    assert(texts(outs@) == all);
    // outputs must be distinct
    let mut i: usize = 0;
    assert(all.take(0) =~= Seq::<Seq<char>>::empty());
    while i < n
        invariant
            n == actions@.len(),
            i <= n,
            all == action_outputs(actions@),
            texts(outs@) == all,
            first_repeated(all.take(i as int)) is None,
        decreases n - i,
    {
        let mut j: usize = 0;
        while j < i
            invariant
                i < n,
                j <= i,
                texts(outs@) == all,
                all.len() == n,
                all == action_outputs(actions@),
                first_repeated(all.take(i as int)) is None,
                forall|x: int| 0 <= x < j ==> all[x] != all[i as int],
            decreases i - j,
        {
            if str_eq(outs[j].as_str(), outs[i].as_str()) {
                proof {
                    assert(all.take(i + 1).drop_last() =~= all.take(i as int));
                    assert(all.take(i as int)[j as int] == all[i as int]);
                    assert(all.take(i + 1).drop_last().contains(all.take(i + 1).last()));
                    lemma_repeated_prefix(all, i + 1);
                }
                return Err(concat("output defined multiple times: ", outs[i].as_str()));
            }
            j = j + 1;
        }
        proof {
            assert(all.take(i + 1).drop_last() =~= all.take(i as int));
            assert(!all.take(i as int).contains(all[i as int]));
        }
        i = i + 1;
    }
    assert(all.take(n as int) =~= all);
    // edges from the producers of link inputs to the links
    let mut edges: Vec<(usize, usize)> = Vec::new();
    let mut k: usize = 0;
    assert(actions@.take(0) =~= Seq::<Action>::empty());
    while k < n
        invariant
            n == actions@.len(),
            k <= n,
            all == action_outputs(actions@),
            texts(outs@) == all,
            first_repeated(all) is None,
            build_edges(actions@.take(k as int), all) == Ok::<Seq<(usize, usize)>, Seq<char>>(edges@),
            edges@.len() == link_input_count(actions@.take(k as int)),
            forall|e: int| 0 <= e < edges@.len() ==> #[trigger] edges@[e].0 < n && edges@[e].1 < n,
        decreases n - k,
    {
        proof {
            assert(actions@.take(k + 1).drop_last() =~= actions@.take(k as int));
        }
        match &actions[k] {
            Action::Link { inputs, .. } => {
                let ghost ins = texts(inputs@);
                let ghost start = edges@;
                let mut m: usize = 0;
                assert(ins.take(0) =~= Seq::<Seq<char>>::empty());
                assert(start + Seq::<(usize, usize)>::empty() =~= start);
                while m < inputs.len()
                    invariant
                        n == actions@.len(),
                        k < n,
                        m <= inputs@.len(),
                        ins == texts(inputs@),
                        texts(outs@) == all,
                        all.len() == n,
                        all == action_outputs(actions@),
                        first_repeated(all) is None,
                        build_edges(actions@.take(k as int), all) == Ok::<Seq<(usize, usize)>, Seq<char>>(start),
                        actions@[k as int] matches Action::Link { inputs: i2, .. } && i2@ == inputs@,
                        input_edges(ins.take(m as int), k, all) matches Ok(more) && edges@ == start + more,
                        edges@.len() == start.len() + m,
                        forall|e: int| 0 <= e < edges@.len() ==> #[trigger] edges@[e].0 < n && edges@[e].1 < n,
                    decreases inputs@.len() - m,
                {
                    proof {
                        assert(ins.take(m + 1).drop_last() =~= ins.take(m as int));
                        assert(ins.take(m + 1).last() == inputs@[m as int]@);
                        lemma_position_bound(all, inputs@[m as int]@);
                    }
                    match find_output(&outs, inputs[m].as_str()) {
                        None => {
                            proof {
                                lemma_input_edges_prefix(ins, k, all, m + 1);
                                let msg = "linker input does not exist: "@ + inputs@[m as int]@;
                                assert(input_edges(ins.take(m + 1), k, all) == Err::<Seq<(usize, usize)>, Seq<char>>(msg));
                                assert(input_edges(ins, k, all) == Err::<Seq<(usize, usize)>, Seq<char>>(msg));
                                assert(actions@.take(k + 1).last() == actions@[k as int]);
                                assert(actions@.take(k + 1).drop_last() =~= actions@.take(k as int));
                                assert(build_edges(actions@.take(k + 1), all) == Err::<Seq<(usize, usize)>, Seq<char>>(msg));
                                lemma_build_edges_prefix(actions@, all, k + 1);
                            }
                            return Err(concat("linker input does not exist: ", inputs[m].as_str()));
                        },
                        Some(j) => {
                            let ghost before = edges@;
                            edges.push((j, k));
                            proof {
                                let more = input_edges(ins.take(m as int), k, all)->Ok_0;
                                assert(edges@ =~= start + more.push((j, k)));
                            }
                        },
                    }
                    m = m + 1;
                }
                proof {
                    assert(ins.take(inputs@.len() as int) =~= ins);
                    assert(actions@.take(k + 1).last() == actions@[k as int]);
                }
            },
            _ => {
                proof {
                    assert(actions@.take(k + 1).last() == actions@[k as int]);
                }
            },
        }
        k = k + 1;
    }
    proof {
        assert(actions@.take(n as int) =~= actions@);
    }
    match topological_order(n, &edges) {
        Some(order) => Ok(order),
        None => Err("expect a DAG in the build graph".to_owned()),
    }
}
} // verus!
