use libra::proxy::{
    command_extension_str, command_record_path, libmark_extension_str, ClangArg, ClangInvocation,
};

fn strings(items: &[&str]) -> Vec<String> {
    items.iter().map(|s| s.to_string()).collect()
}

fn words_of(args: &[ClangArg]) -> Vec<String> {
    args.iter().flat_map(|a| a.as_args()).collect()
}

#[test]
fn extensions() {
    assert_eq!(command_extension_str(), ".command.json");
    assert_eq!(libmark_extension_str(), ".library.mark");
}

#[test]
fn key_values_split_at_first_equals() {
    assert_eq!(
        ClangArg::expect_maybe_key_value("A=B=C"),
        ("A".to_string(), Some("B=C".to_string()))
    );
    assert_eq!(ClangArg::expect_maybe_key_value("A"), ("A".to_string(), None));
    assert_eq!(ClangArg::expect_maybe_key_value("A="), ("A".to_string(), Some(String::new())));
}

#[test]
fn a_full_command_line_is_collected() {
    let tokens = strings(&[
        "-c",
        "-std=c11",
        "-DX=1",
        "-DFLAG",
        "-I",
        "inc",
        "-Isrc",
        "-Wp,-MD,-MF,deps.d",
        "-Wl,-rpath,/lib,-soname,libx.so",
        "-O2",
        "-lm",
        "-L",
        "/usr/lib",
        "-fPIC",
        "-fno-exceptions",
        "-Wall",
        "-print-file-name=libc.so",
        "main.c",
        "-o",
        "a.out",
    ]);
    let args = ClangArg::try_collect(&tokens).unwrap();
    assert_eq!(args.len(), 19);
    assert!(matches!(&args[0], ClangArg::ModeCompile));
    assert!(matches!(&args[2], ClangArg::Define(k, Some(v)) if k == "X" && v == "1"));
    assert!(matches!(&args[3], ClangArg::Define(k, None) if k == "FLAG"));
    assert!(matches!(&args[4], ClangArg::Include(v) if v == "inc"));
    assert!(matches!(&args[6], ClangArg::PrepMD));
    assert!(matches!(&args[7], ClangArg::PrepMF(v) if v == "deps.d"));
    assert!(matches!(&args[8], ClangArg::LinkRpath(v) if v == "/lib"));
    assert!(matches!(&args[9], ClangArg::LinkSoname(v) if v == "libx.so"));
    assert!(matches!(&args[13], ClangArg::FlagPIC(true)));
    assert!(matches!(&args[14], ClangArg::FlagExceptions(false)));
    assert!(matches!(&args[16], ClangArg::Print(k, Some(v)) if k == "file-name" && v == "libc.so"));
    assert!(matches!(&args[17], ClangArg::Input(v) if v == "main.c"));
    assert!(matches!(&args[18], ClangArg::Output(v) if v == "a.out"));
    let collected = ClangArg::collect(&tokens);
    assert_eq!(collected.len(), 19);
    assert_eq!(command_record_path(&collected), Some("a.out.command.json".to_string()));
}

#[test]
fn refused_command_lines() {
    assert!(ClangArg::try_collect(&strings(&["-x", "c"])).is_none());
    assert!(ClangArg::try_collect(&strings(&["main.c", "-o"])).is_none());
    assert!(ClangArg::try_collect(&strings(&["-Wl,-rpath,\"/x\""])).is_none());
    assert!(ClangArg::try_collect(&strings(&["-Wp,-MF"])).is_none());
    assert!(ClangArg::try_collect(&strings(&["-Wl,--as-needed"])).is_none());
    assert!(ClangArg::try_collect(&strings(&[])).unwrap().is_empty());
}

#[test]
fn words_round_trip_for_flags() {
    let tokens = strings(&["-c", "-O2", "-lm", "-fPIC", "-Wall", "-isysroot", "/sdk"]);
    let args = ClangArg::collect(&tokens);
    assert_eq!(words_of(&args), tokens);
}

#[test]
fn grouped_words_are_written_one_by_one() {
    let args = ClangArg::collect(&strings(&["-Wp,-MD,-MP", "-I", "inc", "-L", "/l"]));
    assert_eq!(words_of(&args), strings(&["-Wp,-MD", "-Wp,-MP", "-Iinc", "-L/l"]));
}

#[test]
fn output_is_written_as_two_words() {
    assert_eq!(ClangArg::Output("a.out".to_string()).as_args(), strings(&["-o", "a.out"]));
    assert_eq!(ClangArg::Arch("arm64".to_string()).as_args(), strings(&["-arch", "arm64"]));
    let tokens = strings(&["main.c", "-o", "a.out"]);
    assert_eq!(words_of(&ClangArg::collect(&tokens)), strings(&["unexpected input main.c", "-o", "a.out"]));
    let tokens = strings(&["-c", "-o", "a.o"]);
    assert_eq!(words_of(&ClangArg::collect(&tokens)), tokens);
}

#[test]
fn argument_descriptions() {
    assert_eq!(ClangArg::Output("a.o".to_string()).describe(), "-o a.o");
    assert_eq!(ClangArg::Arch("x86_64".to_string()).describe(), "-arch x86_64");
    assert_eq!(ClangArg::Input("a.c".to_string()).describe(), "unexpected input a.c");
    assert_eq!(ClangArg::FlagRTTI(false).describe(), "-fno-rtti");
}

#[test]
fn invocation_description() {
    let inv = ClangInvocation {
        cwd: "/w".to_string(),
        cxx: true,
        args: ClangArg::collect(&strings(&["-c", "-o", "x.o"])),
    };
    assert_eq!(inv.describe(), "clang++ -c -o x.o");
    let empty = ClangInvocation { cwd: "/w".to_string(), cxx: false, args: vec![] };
    assert_eq!(empty.describe(), "clang ");
}

#[test]
fn record_path_needs_an_output() {
    let args = ClangArg::collect(&strings(&["-c", "a.c"]));
    assert_eq!(command_record_path(&args), None);
}
