use libra::path::{
    bitcode_path, components_of, extension_of_name, extension_of_path, find_last_char, join_path,
    names_file, normalize_path, trim_end,
};
use libra::text::{
    concat3, contains_char, decimal, decimal_usize, ends_with, find_char,
    join_strings, join_with_spaces, slice_chars, split_char, starts_with, str_eq, str_less,
    strip_prefix, strip_suffix,
};

fn words(items: &[&str]) -> Vec<String> {
    items.iter().map(|s| s.to_string()).collect()
}

#[test]
fn concatenation_keeps_order() {
    assert_eq!(libra::text::concat("ab", "cd"), "abcd");
    assert_eq!(concat3("a", "-", "b"), "a-b");
    assert_eq!(libra::text::concat("", ""), "");
}

#[test]
fn equality_and_affixes() {
    assert!(str_eq("clang", "clang"));
    assert!(!str_eq("clang", "clang++"));
    assert!(starts_with("-Wall", "-W"));
    assert!(!starts_with("-W", "-Wall"));
    assert!(ends_with("main.c", ".c"));
    assert!(!ends_with("main.c", ".cpp"));
    assert_eq!(strip_prefix("-Iinclude", "-I"), Some("include".to_string()));
    assert_eq!(strip_prefix("include", "-I"), None);
    assert_eq!(strip_suffix("main.o", ".o"), Some("main".to_string()));
    assert_eq!(strip_suffix("main.o", ".c"), None);
}

#[test]
fn char_search_and_slices() {
    assert_eq!(find_char("a=b=c", '='), Some(1));
    assert_eq!(find_char("abc", '='), None);
    assert!(contains_char("x/y", '/'));
    assert!(!contains_char("xy", '/'));
    assert_eq!(find_last_char("a.b.c", '.'), Some(3));
    assert_eq!(find_last_char("abc", '.'), None);
    assert_eq!(slice_chars("compile", 3, 6), "pil");
}

#[test]
fn split_keeps_empty_pieces() {
    assert_eq!(split_char("a//b", '/'), words(&["a", "", "b"]));
    assert_eq!(split_char("", '/'), words(&[""]));
    assert_eq!(split_char("/x/", '/'), words(&["", "x", ""]));
}

#[test]
fn joining_words() {
    assert_eq!(join_with_spaces(&words(&["clang", "-c", "a.c"])), "clang -c a.c");
    assert_eq!(join_with_spaces(&words(&[])), "");
    assert_eq!(join_strings(&words(&["usr", "lib"]), "/"), "usr/lib");
    assert_eq!(join_strings(&words(&["one"]), ", "), "one");
}

#[test]
fn decimal_notation() {
    assert_eq!(decimal(0), "0");
    assert_eq!(decimal(7), "7");
    assert_eq!(decimal(1204), "1204");
    assert_eq!(decimal(u64::MAX), u64::MAX.to_string());
    assert_eq!(decimal_usize(42), "42");
}

#[test]
fn lexicographic_order_is_strict() {
    assert!(str_less("abc", "abd"));
    assert!(str_less("ab", "abc"));
    assert!(!str_less("abc", "abc"));
    assert!(!str_less("b", "abc"));
    assert!(str_less("", "a"));
}

#[test]
fn path_components_drop_empty_and_dot() {
    assert_eq!(components_of("/usr//./lib/"), words(&["usr", "lib"]));
    assert_eq!(components_of("a/../b"), words(&["a", "..", "b"]));
    assert_eq!(components_of(""), words(&[]));
}

#[test]
fn extensions_of_names_and_paths() {
    assert_eq!(extension_of_name("main.c"), Some("c".to_string()));
    assert_eq!(extension_of_name("archive.tar.gz"), Some("gz".to_string()));
    assert_eq!(extension_of_name(".bashrc"), None);
    assert_eq!(extension_of_name("Makefile"), None);
    assert_eq!(extension_of_path("src/lib.cpp"), Some("cpp".to_string()));
    assert_eq!(extension_of_path("src/.hidden"), None);
    assert_eq!(extension_of_path("src/.."), None);
    assert_eq!(extension_of_path("/"), None);
    assert_eq!(extension_of_path("dir/file."), Some("".to_string()));
}

#[test]
fn normalization_resolves_dots() {
    assert_eq!(normalize_path("/home/u", "src/../lib/./a.c"), "/home/u/lib/a.c");
    assert_eq!(normalize_path("/home/u", "/etc/../tmp"), "/tmp");
    assert_eq!(normalize_path("/", "../.."), "/");
    assert_eq!(normalize_path("rel", "x"), "rel/x");
    assert_eq!(normalize_path("/a/b", ".."), "/a");
}

#[test]
fn files_and_trimmed_ends() {
    assert!(names_file("a/b.c"));
    assert!(!names_file("/"));
    assert!(!names_file("a/.."));
    assert_eq!(trim_end("dir/./"), "dir");
    assert_eq!(trim_end("dir///"), "dir");
    assert_eq!(trim_end("plain"), "plain");
}

#[test]
fn bitcode_paths_append_bc() {
    assert_eq!(bitcode_path("obj/main.o"), "obj/main.o.bc");
    assert_eq!(bitcode_path("obj/out/"), "obj/out.bc");
    assert_eq!(bitcode_path("/"), "/");
    assert_eq!(bitcode_path("x/.."), "x/..");
}

#[test]
fn joining_paths() {
    assert_eq!(join_path("/usr", "lib"), "/usr/lib");
    assert_eq!(join_path("/usr/", "lib"), "/usr/lib");
    assert_eq!(join_path("/usr", "/opt"), "/opt");
    assert_eq!(join_path("", "lib"), "lib");
}

#[test]
fn normalizing_twice_changes_nothing() {
    let once = normalize_path("/home/u", "./src//../lib/a.c/.");
    assert_eq!(once, "/home/u/lib/a.c");
    assert_eq!(normalize_path("/elsewhere", &once), once);
    assert_eq!(normalize_path("rel/dir", &once), once);
    let root = normalize_path("/", "..");
    assert_eq!(normalize_path("/x", &root), root);
}
