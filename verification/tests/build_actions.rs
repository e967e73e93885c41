use libra::proxy::{ClangArg, ClangInvocation};
use libra::wllvm::{
    build_order, choose_library, library_mark_name, split_args, Action, ArgKind,
    CommonExtensions, Libraries, SysLib,
};

fn strings(items: &[&str]) -> Vec<String> {
    items.iter().map(|s| s.to_string()).collect()
}

fn invocation(cxx: bool, tokens: &[&str]) -> ClangInvocation {
    ClangInvocation {
        cwd: "/w".to_string(),
        cxx,
        args: ClangArg::collect(&strings(tokens)),
    }
}

fn compile(input: &str, output: &str) -> Action {
    Action::Compile {
        input: input.to_string(),
        output: output.to_string(),
        invocation: invocation(false, &[]),
    }
}

fn link(inputs: &[&str], output: &str) -> Action {
    Action::Link {
        inputs: strings(inputs),
        libs: Libraries::default(),
        output: output.to_string(),
        invocation: invocation(false, &[]),
    }
}

#[test]
fn extensions_are_probed() {
    assert_eq!(CommonExtensions::probe("a/b.c"), Some(CommonExtensions::C));
    assert_eq!(CommonExtensions::probe("b.cc"), Some(CommonExtensions::CPP));
    assert_eq!(CommonExtensions::probe("b.s"), Some(CommonExtensions::Asm));
    assert_eq!(CommonExtensions::probe("b.o"), Some(CommonExtensions::Object));
    assert_eq!(CommonExtensions::probe("libz.a"), Some(CommonExtensions::LibStatic));
    assert_eq!(CommonExtensions::probe("libz.so"), Some(CommonExtensions::LibShared));
    assert_eq!(CommonExtensions::probe("libz.so.1"), None);
    assert_eq!(CommonExtensions::probe("README"), None);
}

#[test]
fn arguments_are_split_by_kind() {
    let inv = invocation(false, &["-c", "a.c", "-O2", "b.c", "-o", "x.o"]);
    let (rest, inputs) = split_args(&inv.args, ArgKind::Input);
    assert_eq!(inputs.len(), 2);
    assert_eq!(rest.len(), 3);
    assert!(ArgKind::Link.holds_for(&ClangArg::LibName("m".to_string())));
    assert!(!ArgKind::Link.holds_for(&ClangArg::ModeCompile));
}

#[test]
fn output_inputs_and_mode_are_separated() {
    let inv = invocation(false, &["-c", "src/../a.c", "-O2", "-o", "./out/a.o", "/abs/b.c"]);
    let (inv, out) = Action::filter_args_for_output(&inv).unwrap();
    assert_eq!(out, "/w/out/a.o");
    let (inv, ins) = Action::filter_args_for_inputs(&inv).unwrap();
    assert_eq!(ins, strings(&["/w/a.c", "/abs/b.c"]));
    let (inv, compile_only) = Action::filter_args_for_mode_compile(&inv).unwrap();
    assert!(compile_only);
    assert_eq!(inv.describe(), "clang -O2");
}

#[test]
fn separation_errors() {
    let inv = invocation(false, &["-c", "a.c"]);
    assert_eq!(Action::filter_args_for_output(&inv).unwrap_err(), "no output in the invocation");
    let inv = invocation(false, &["-c", "-o", "a.o"]);
    assert_eq!(Action::filter_args_for_inputs(&inv).unwrap_err(), "no inputs in the invocation");
    let inv = invocation(false, &["-c", "-c", "a.c"]);
    assert_eq!(
        Action::filter_args_for_mode_compile(&inv).unwrap_err(),
        "-c specified multiple times"
    );
}

#[test]
fn linking_arguments_name_libraries() {
    let inv = invocation(false, &["-lm", "-lpthread", "-lc", "-lz", "-L", "/opt/lib", "-Lrel", "-shared", "-O2"]);
    let (rest, req) = Action::filter_args_for_mode_link(&inv);
    assert!(req.has_linking_flags);
    assert_eq!(req.sys, vec![SysLib::Math, SysLib::POSIXThread, SysLib::C]);
    assert_eq!(req.names, strings(&["z"]));
    assert_eq!(req.dirs, strings(&["/opt/lib", "/w/rel"]));
    assert_eq!(rest.args.len(), 1);
    let (_, none) = Action::filter_args_for_mode_link(&invocation(false, &["-O2"]));
    assert!(!none.has_linking_flags);
}

#[test]
fn library_marks() {
    assert_eq!(library_mark_name("z"), "libz.library.mark");
    assert_eq!(choose_library("z", &strings(&[])).unwrap_err(), "library z not found");
    assert_eq!(
        choose_library("z", &strings(&["a", "b"])).unwrap_err(),
        "more than one candidate found for library z"
    );
    assert_eq!(choose_library("z", &strings(&["/p/libz.library.mark"])).unwrap(), "/p/libz.library.mark");
}

#[test]
fn actions_are_decided() {
    let base = || invocation(false, &[]);
    let a = Action::decide(base(), "a.o".to_string(), strings(&["a.c"]), true, None).unwrap();
    assert!(matches!(a, Action::Compile { .. }));
    assert_eq!(a.output(), "a.o");
    let a = Action::decide(base(), "a".to_string(), strings(&["a.c"]), false, None).unwrap();
    assert!(matches!(a, Action::CompileAndLink { .. }));
    let a = Action::decide(base(), "a".to_string(), strings(&["a.o"]), false, None).unwrap();
    assert!(matches!(a, Action::Link { .. }));
    let a = Action::decide(base(), "a".to_string(), strings(&["a.o", "b.o"]), false, Some(Libraries::default())).unwrap();
    assert!(matches!(a, Action::Link { .. }));
}

#[test]
fn undecidable_actions() {
    let base = || invocation(false, &[]);
    assert_eq!(
        Action::decide(base(), "a.o".to_string(), strings(&["a.c"]), true, Some(Libraries::default())).unwrap_err(),
        "unexpected linking flags in compile-only mode"
    );
    assert_eq!(
        Action::decide(base(), "a.o".to_string(), strings(&["a.c", "b.c"]), true, None).unwrap_err(),
        "more than one inputs in compile-only mode "
    );
    assert_eq!(
        Action::decide(base(), "a".to_string(), strings(&["notes"]), false, None).unwrap_err(),
        "unable to guess the action for single-file invocation: notes"
    );
}

#[test]
fn bitcode_arguments_of_a_compilation() {
    let a = Action::Compile {
        input: "src/a.c".to_string(),
        output: "obj/a.o".to_string(),
        invocation: invocation(false, &["-O2", "-Iinc", "-DX", "-Wp,-MD", "-fPIC", "-g"]),
    };
    assert_eq!(
        a.bitcode_args().unwrap(),
        strings(&["-c", "-emit-llvm", "-Iinc", "-DX", "-fPIC", "-g", "-o", "obj/a.o.bc", "src/a.c"])
    );
    let bad = Action::Compile {
        input: "a.c".to_string(),
        output: "a.o".to_string(),
        invocation: invocation(true, &["-lm"]),
    };
    assert_eq!(bad.bitcode_args().unwrap_err(), "unexpected clang++ option: -lm");
}

#[test]
fn build_order_puts_producers_first() {
    let actions = vec![link(&["a.o", "b.o"], "prog"), compile("a.c", "a.o"), compile("b.c", "b.o")];
    let order = build_order(&actions).unwrap();
    assert_eq!(order.len(), 3);
    let pos = |k: usize| order.iter().position(|&x| x == k).unwrap();
    assert!(pos(1) < pos(0));
    assert!(pos(2) < pos(0));
}

#[test]
fn build_order_chains_links() {
    let actions = vec![
        link(&["lib.a"], "prog"),
        link(&["x.o"], "lib.a"),
        compile("x.c", "x.o"),
    ];
    assert_eq!(build_order(&actions).unwrap(), vec![2, 1, 0]);
}

#[test]
fn build_order_errors() {
    let dup = vec![compile("a.c", "a.o"), compile("b.c", "a.o")];
    assert_eq!(build_order(&dup).unwrap_err(), "output defined multiple times: a.o");
    let missing = vec![link(&["a.o", "c.o"], "prog"), compile("a.c", "a.o")];
    assert_eq!(build_order(&missing).unwrap_err(), "linker input does not exist: c.o");
    let cycle = vec![link(&["y"], "x"), link(&["x"], "y")];
    assert_eq!(build_order(&cycle).unwrap_err(), "expect a DAG in the build graph");
    let own = vec![link(&["x"], "x")];
    assert_eq!(build_order(&own).unwrap_err(), "expect a DAG in the build graph");
    assert_eq!(build_order(&vec![]).unwrap(), Vec::<usize>::new());
}
