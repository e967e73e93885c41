use libra::apps::apache_httpd;
use libra::apps::pcre2;
use libra::apps::zlib;
use libra::builder::{trim, Artifact as PassArtifact, ArtifactLLVM, DepLLVM, DepOracle, GitRepo};
use libra::common::{extend_path, ArtifactBin, ArtifactLib};
use libra::config::{project, Mode, Workspace};
use libra::dep::{ready_mark_path, BuildStep, DepState, Dependency};
use libra::error::{EngineError, Tool, Unsupported};
use libra::flow::{clang_flags, fixedpoint_step_path, rounds_exhausted, Workflow as Flow};
use libra::path::replace_extension;
use libra::logging::{indentation, log_level, LogLevel, Tracer};
use libra::workflow::{
    retrieve_config, retrieve_workflow, workflow_name, Artifact, ArtifactKind, Entrypoint, Stage,
    Workflow, WorkflowConfig,
};

fn strings(items: &[&str]) -> Vec<String> {
    items.iter().map(|s| s.to_string()).collect()
}

fn workflow(kind: ArtifactKind, name: &str) -> Workflow<()> {
    Workflow {
        config: (),
        libs: vec![(
            "z".to_string(),
            Artifact { item_in_src: "src".to_string(), item_in_bin: "lib".to_string() },
        )],
        bins: vec![(
            "minigzip".to_string(),
            Artifact { item_in_src: "build".to_string(), item_in_bin: String::new() },
        )],
        entry: Entrypoint { kind, name: name.to_string(), function: "main".to_string() },
        fixedpoint: Some(4),
    }
}

#[test]
fn stages_and_marks() {
    assert_eq!(Stage::Build.mark(), "mark.build");
    assert_eq!(Stage::Analyze.mark(), "mark.analyze");
    assert_eq!(Stage::Merge.mark_path("/w"), "/w/mark.merge");
    assert!(Stage::Check.keeps_mark());
    assert!(!Stage::Analyze.keeps_mark());
    assert_eq!(
        Stage::pending(false, false, false, false),
        vec![Stage::Build, Stage::Check, Stage::Merge, Stage::Analyze]
    );
    assert_eq!(Stage::pending(true, true, false, false), vec![Stage::Merge, Stage::Analyze]);
    assert_eq!(Stage::pending(true, true, true, true), Vec::<Stage>::new());
}

#[test]
fn entry_artifacts() {
    assert_eq!(
        workflow(ArtifactKind::Lib, "z").entry_artifact("/src", "/bin").unwrap(),
        "/bin/lib/libz.library.mark"
    );
    assert_eq!(
        workflow(ArtifactKind::Bin, "minigzip").entry_artifact("/src", "/bin").unwrap(),
        "/src/build/minigzip"
    );
    assert_eq!(
        workflow(ArtifactKind::Lib, "png").entry_artifact("/src", "/bin").unwrap_err(),
        "unable to find entry target in libs: png"
    );
    assert_eq!(
        workflow(ArtifactKind::Bin, "z").entry_artifact("/src", "/bin").unwrap_err(),
        "unable to find entry target in bins: z"
    );
}

#[test]
fn named_workflows() {
    assert_eq!(workflow_name("default.json"), Some("default".to_string()));
    assert_eq!(workflow_name("notes.txt"), None);
    let configs = || {
        vec![
            ("a".to_string(), "/s/a".to_string(), zlib::Config {}),
            ("b".to_string(), "/s/b1".to_string(), zlib::Config {}),
            ("b".to_string(), "/s/b2".to_string(), zlib::Config {}),
        ]
    };
    assert_eq!(retrieve_config(configs(), "b").unwrap().0, "/s/b1");
    assert_eq!(
        retrieve_config(configs(), "c").unwrap_err(),
        "no such config 'c' for app 'zlib'"
    );
    let flows = vec![(
        "default".to_string(),
        "/s/default".to_string(),
        Workflow {
            config: pcre2::Config { libs: vec![], bins: vec![] },
            libs: vec![],
            bins: vec![],
            entry: Entrypoint { kind: ArtifactKind::Bin, name: "x".to_string(), function: "main".to_string() },
            fixedpoint: None,
        },
    )];
    let (dir, flow) = retrieve_workflow(flows, "default").unwrap();
    assert_eq!(dir, "/s/default");
    assert_eq!(flow.entry.name, "x");
    let none: Vec<(String, String, Workflow<pcre2::Config>)> = vec![];
    assert_eq!(
        retrieve_workflow(none, "default").unwrap_err(),
        "no such workflow 'default' for app 'pcre2'"
    );
}

#[test]
fn dependency_states() {
    assert_eq!(ready_mark_path("/deps/llvm"), "/deps/llvm.ready");
    assert_eq!(ready_mark_path("/deps/llvm-14.0/"), "/deps/llvm-14.ready");
    assert_eq!(ready_mark_path("/deps/.hidden"), "/deps/.hidden.ready");
    assert_eq!(ready_mark_path("/"), "/");
    match DepState::classify("llvm", "/w".to_string(), true, true).unwrap() {
        (DepState::Package(p), false) => {
            assert_eq!(p.path_wks, "/w");
        }
        other => panic!("unexpected {:?}", other),
    }
    assert_eq!(
        DepState::classify("llvm", "/w".to_string(), true, false).unwrap_err(),
        "package mark exists without artifact: llvm"
    );
    let (scratch, delete) = DepState::classify("llvm", "/w".to_string(), false, true).unwrap();
    assert!(delete);
    assert!(matches!(scratch, DepState::Scratch(_)));
    assert_eq!(scratch.build_step(true), BuildStep::Make);
    let (pkg, _) = DepState::classify("llvm", "/w".to_string(), true, true).unwrap();
    assert_eq!(pkg.build_step(false), BuildStep::Keep);
    assert_eq!(pkg.build_step(true), BuildStep::Rebuild);
}

#[test]
fn configuration() {
    assert_eq!(project(), "LIBRA");
    assert_eq!(Mode::from_verbosity(None), Mode::Dev);
    assert_eq!(Mode::from_verbosity(Some(0)), Mode::Prod);
    assert_eq!(Mode::from_verbosity(Some(2)), Mode::Debug);
    assert_eq!(Mode::from_verbosity(Some(9)), Mode::Verbose);
    assert_eq!(Mode::Prod.describe(), "production");
    let wks = Workspace::derive("/home/u/libra/binder/shared", false);
    assert_eq!(wks.base, "/home/u/libra");
    assert_eq!(wks.studio, "/home/u/libra/studio/native");
    let wks = Workspace::derive("/a/b", true);
    assert_eq!(wks.base, "/");
    assert_eq!(wks.studio, "/studio/docker");
}

#[test]
fn tracing_lines() {
    assert_eq!(indentation(0), "");
    assert_eq!(indentation(2), "    ");
    let t = Tracer::new("build".to_string(), Some(1));
    assert_eq!(t.enter_line(), Some("  -> build".to_string()));
    assert_eq!(t.log("step"), Some("   step".to_string()));
    assert_eq!(t.exit_line(), Some("  <- build".to_string()));
    let quiet = Tracer::new("build".to_string(), None);
    assert_eq!(quiet.enter_line(), None);
    assert_eq!(quiet.log("x"), None);
    assert_eq!(log_level(None), LogLevel::Info);
    assert_eq!(log_level(Some(1)), LogLevel::Debug);
    assert_eq!(log_level(Some(3)), LogLevel::Trace);
}

#[test]
fn builder_paths_and_commits() {
    assert_eq!(<DepLLVM as Dependency>::name(), "llvm");
    assert_eq!(<DepOracle as Dependency>::name(), "oracle");
    let a = ArtifactLLVM::from_workspace("/w");
    assert_eq!(a.path_src, "/w/src");
    assert_eq!(a.path_build, "/w/build");
    assert_eq!(a.path_install, "/w/install");
    assert_eq!(PassArtifact::from_workspace("/p").path_lib, "/p/Libra/libLibra.so");
    assert_eq!(trim("  abc \n"), "abc");
    assert_eq!(trim(" \t "), "");
    let repo = GitRepo::from_rev_list("/r".to_string(), "deadbeef\n");
    assert_eq!(repo.commit(), "deadbeef");
}

#[test]
fn analysis_run_paths() {
    let f = Flow::new("/llvm", "/pass.so", strings(&["a.c"]), "/out".to_string());
    assert_eq!(f.bin_opt, "/llvm/bin/opt");
    assert_eq!(f.bin_clang, "/llvm/bin/clang");
    assert_eq!(f.bin_llvm_link, "/llvm/bin/llvm-link");
    assert_eq!(f.bin_llvm_dis, "/llvm/bin/llvm-dis");
    assert_eq!(f.get_init_bc_path(3), "/out/init-3.bc");
    assert_eq!(f.get_merged_bc_path(), "/out/merged.bc");
    assert_eq!(f.get_serialized_path(12), "/out/bitcode-12.json");
    assert_eq!(fixedpoint_step_path("/out", 2), "/out/step-2.bc");
    assert!(!rounds_exhausted(None, 100));
    assert!(!rounds_exhausted(Some(2), 2));
    assert!(rounds_exhausted(Some(2), 3));
    let flags = clang_flags(&strings(&["-DX"]));
    assert_eq!(flags.len(), 9);
    assert_eq!(flags[0], "-g");
    assert_eq!(flags[7], "-disable-O0-optnone");
    assert_eq!(flags[8], "-DX");
}

#[test]
fn extensions_are_replaced() {
    assert_eq!(replace_extension("/o/step-1.bc", "ll"), "/o/step-1.ll");
    assert_eq!(replace_extension("a/b.tar.gz", "json"), "a/b.tar.json");
    assert_eq!(replace_extension("a/noext", "ll"), "a/noext.ll");
    assert_eq!(replace_extension("a/.hidden", "ll"), "a/.hidden.ll");
    assert_eq!(replace_extension("a/..", "ll"), "a/..");
}

#[test]
fn artifact_locations() {
    assert_eq!(extend_path("/b", &strings(&["x", "y"])), "/b/x/y");
    let lib = ArtifactLib { item_in_src: strings(&["build"]), item_in_bin: strings(&["lib"]) };
    assert_eq!(lib.install_path("/bin"), "/bin/lib");
    assert_eq!(lib.build_path("/src"), "/src/build");
    let bin = ArtifactBin { item_in_src: strings(&[]) };
    assert_eq!(bin.build_path("/src"), "/src");
}

#[test]
fn error_messages() {
    assert_eq!(Unsupported::InlineAssembly.describe(), "inline assembly");
    assert_eq!(Tool::OptPipeline("mem2reg".to_string()).describe(), "opt|mem2reg|");
    assert_eq!(
        EngineError::CompilationError(Tool::ClangCompile, "boom".to_string()).describe(),
        "[libra::compilation] clang|-c|: boom"
    );
    assert_eq!(
        EngineError::NotSupportedYet(Unsupported::OpaqueType).describe(),
        "[libra::unsupported] opaque type"
    );
    match EngineError::invalid_assumption("no such type: ", "foo") {
        EngineError::InvalidAssumption(m) => assert_eq!(m, "no such type: foo"),
        other => panic!("unexpected {:?}", other),
    }
}

#[test]
fn app_configurations() {
    assert_eq!(zlib::Config::app(), "zlib");
    assert_eq!(zlib::Config::repository(), "https://github.com/madler/zlib.git");
    assert_eq!(pcre2::Config::app(), "pcre2");
    assert_eq!(apache_httpd::Config::app(), "apache_httpd");
    assert_eq!(
        apache_httpd::Config::configure_args("/w/pcre2"),
        strings(&["--with-included-apr", "--with-pcre=/w/pcre2/bin"])
    );
}
