use libra::compile_db::{ClangArg, ClangCommand, ClangSupportedLanguage, TokenStream};

fn parse(is_cpp: bool, text: &str) -> Result<ClangCommand, String> {
    ClangCommand::new(is_cpp, "/work".to_string(), TokenStream::new(text, ' '))
        .map_err(|e| e.message)
}

fn strings(items: &[&str]) -> Vec<String> {
    items.iter().map(|s| s.to_string()).collect()
}

#[test]
fn token_stream_skips_empty_tokens_from_both_ends() {
    let mut s = TokenStream::new("  clang  -c  a.c  ", ' ');
    assert_eq!(s.next_or_end(), Some("clang".to_string()));
    assert_eq!(s.prev_or_end(), Some("a.c".to_string()));
    assert_eq!(s.next_or_end(), Some("-c".to_string()));
    assert_eq!(s.next_or_end(), None);
    assert_eq!(s.prev_or_end(), None);
}

#[test]
fn token_stream_expectations() {
    let mut s = TokenStream::new("clang -o", ' ');
    assert!(s.next_expect_literal("clang").is_ok());
    assert_eq!(s.next_expect_token().unwrap(), "-o");
    assert_eq!(s.next_expect_token().unwrap_err().message, "expect <token>, found none");
    assert!(s.next_or_end().is_none());
    let mut blank = TokenStream::new("  ", ' ');
    assert!(blank.next_expect_token().is_err());
    assert!(blank.prev_or_end().is_none());
    assert_eq!(
        s.next_expect_literal("x").unwrap_err().message,
        "expect 'x', found none"
    );
    let mut t = TokenStream::new("gcc a.c", ' ');
    assert_eq!(
        t.next_expect_literal("clang").unwrap_err().message,
        "expect 'clang', found 'gcc'"
    );
    assert_eq!(t.prev_expect_token().unwrap(), "a.c");
    assert_eq!(t.prev_expect_token().unwrap_err().message, "expect <token>, found none");
}

#[test]
fn literal_expectation_does_not_skip_empty_tokens() {
    let mut s = TokenStream::new(" clang", ' ');
    assert_eq!(
        s.next_expect_literal("clang").unwrap_err().message,
        "expect 'clang', found ''"
    );
}

#[test]
fn typical_command_is_read() {
    let cmd = parse(
        false,
        "-c -std=c99 -DNDEBUG -I include -Isrc -O2 -g -fPIC -Wall -Wno-error=unused -w -pthread -o out/a.o src/a.c",
    )
    .unwrap();
    assert_eq!(cmd.workdir, "/work");
    assert!(!cmd.is_cpp);
    assert_eq!(cmd.outputs(), strings(&["out/a.o"]));
    assert_eq!(cmd.inputs(), strings(&["src/a.c"]));
    assert_eq!(cmd.infer_language(), Some(ClangSupportedLanguage::C));
    assert_eq!(
        cmd.gen_args_for_libra(),
        strings(&[
            "-c",
            "-std=c99",
            "-DNDEBUG",
            "-Iinclude",
            "-Isrc",
            "-fPIC",
            "-Wall",
            "-Wno-error=unused",
            "-w",
            "-pthread",
            "-Xclang",
            "-disable-O0-optnone",
        ])
    );
    assert_eq!(
        cmd.describe(),
        "clang -c -std=c99 -DNDEBUG -Iinclude -Isrc -O2 -g -fPIC -Wall -Wno-error=unused -w -pthread -o out/a.o src/a.c"
    );
}

#[test]
fn quoted_values_span_tokens() {
    let cmd = parse(false, "-D\"A B\" -I'my dir' -fname=\"x y\" a.c").unwrap();
    match &cmd.args[0] {
        ClangArg::Define(v) => assert_eq!(v, "A B"),
        other => panic!("unexpected {:?}", other),
    }
    match &cmd.args[1] {
        ClangArg::Include(v) => assert_eq!(v, "my dir"),
        other => panic!("unexpected {:?}", other),
    }
    match &cmd.args[2] {
        ClangArg::Flag(k, Some(v)) => {
            assert_eq!(k, "name");
            assert_eq!(v, "x y");
        }
        other => panic!("unexpected {:?}", other),
    }
    assert_eq!(cmd.args.len(), 4);
}

#[test]
fn arch_and_sysroot_take_the_next_token() {
    let cmd = parse(false, "-arch arm64 -isysroot /sdk -march=native m.m").unwrap();
    assert_eq!(
        cmd.gen_args_for_libra(),
        strings(&[
            "-arch",
            "arm64",
            "-isysroot",
            "/sdk",
            "-march=native",
            "-Xclang",
            "-disable-O0-optnone",
        ])
    );
    assert_eq!(cmd.infer_language(), Some(ClangSupportedLanguage::ObjC));
}

#[test]
fn malformed_commands_are_refused() {
    assert_eq!(parse(false, "-x c a.c").unwrap_err(), "unknown flag: -x");
    assert_eq!(parse(false, "-o").unwrap_err(), "expect <token>, found none");
    assert_eq!(parse(false, "-D\"A B").unwrap_err(), "expect <token>, found none");
    assert_eq!(
        parse(false, "-std='c99'").unwrap_err(),
        "unexpected token with quotes: 'c99'"
    );
    assert_eq!(
        parse(false, "-f\"x\"").unwrap_err(),
        "unexpected token with quotes: \"x\""
    );
}

#[test]
fn empty_command_has_no_arguments() {
    let cmd = parse(true, "   ").unwrap();
    assert!(cmd.args.is_empty());
    assert_eq!(cmd.describe(), "clang++");
    assert_eq!(cmd.infer_language(), Some(ClangSupportedLanguage::CPP));
}

#[test]
fn language_inference() {
    assert_eq!(parse(false, "a.cpp b.cc").unwrap().infer_language(), Some(ClangSupportedLanguage::CPP));
    assert_eq!(parse(false, "a.c b.cpp").unwrap().infer_language(), None);
    assert_eq!(parse(false, "a.c notes.txt").unwrap().infer_language(), None);
    assert_eq!(parse(false, "Makefile").unwrap().infer_language(), None);
    assert_eq!(parse(false, "-c").unwrap().infer_language(), None);
    assert_eq!(parse(false, "a.bc b.ll").unwrap().infer_language(), Some(ClangSupportedLanguage::Bitcode));
    assert_eq!(parse(false, "x.o").unwrap().infer_language(), Some(ClangSupportedLanguage::Object));
    assert_eq!(parse(false, "x.mm").unwrap().infer_language(), Some(ClangSupportedLanguage::ObjCPP));
}

#[test]
fn argument_texts() {
    assert_eq!(ClangArg::Output("a.o".to_string()).describe(), "-o a.o");
    assert_eq!(ClangArg::Warning("error".to_string(), Some("x".to_string())).describe(), "-Werror=x");
    assert_eq!(ClangArg::IncludeSysroot("/s".to_string()).describe(), "-isysroot /s");
    assert_eq!(ClangArg::Debug.describe(), "-g");
}
