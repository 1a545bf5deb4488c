use zig_build::BuildError;
use zig_build::bindings::CType;
use zig_build::bindings::Symbol;
use zig_build::bindings::binding_path;
use zig_build::bindings::emit_header;
use zig_build::bindings::parse_header;
use zig_build::bindings::symbol_is_wf;
use zig_build::bindings::symbols_are_wf;
use zig_build::directives::BuildSession;
use zig_build::directives::emit_directives;
use zig_build::invoke::CompilationUnit;
use zig_build::invoke::InvocationResult;
use zig_build::invoke::artifact_path;
use zig_build::invoke::build_args;
use zig_build::invoke::header_path;
use zig_build::invoke::interpret_invocation;
use zig_build::pipeline::finish_unit;
use zig_build::toolchain::Triple;

fn add_symbol() -> Symbol {
    Symbol {
        name: String::from("add"),
        params: vec![CType::I32, CType::I32],
        ret: CType::I32,
    }
}

fn ziggy_unit() -> CompilationUnit {
    CompilationUnit {
        source_path: String::from("src/ziggy.zig"),
        lib_name: String::from("ziggy"),
        out_root: String::from("target/out"),
        needs_host_callback_header: false,
        link_c_runtime: false,
    }
}

#[test]
fn build_args_are_reproducible_and_exact() {
    let u = ziggy_unit();
    let args = build_args(&u);
    let expected = vec![
        "build-lib",
        "-fPIC",
        "--bundle-compiler-rt",
        "--output-dir",
        "target/out/zig-lib-ziggy",
        "--name",
        "ziggy",
        "src/ziggy.zig",
    ];
    let got: Vec<&str> = args.iter().map(|a| a.as_str()).collect();
    assert_eq!(got, expected);
    assert_eq!(build_args(&ziggy_unit()), args);
}

#[test]
fn linking_the_c_runtime_adds_the_library_flag() {
    let mut u = ziggy_unit();
    u.link_c_runtime = true;
    let args = build_args(&u);
    let got: Vec<&str> = args.iter().map(|a| a.as_str()).collect();
    assert_eq!(
        got,
        vec![
            "build-lib",
            "-fPIC",
            "--bundle-compiler-rt",
            "--library",
            "c",
            "--output-dir",
            "target/out/zig-lib-ziggy",
            "--name",
            "ziggy",
            "src/ziggy.zig",
        ]
    );
}

#[test]
fn artifact_and_header_paths_are_predictable() {
    let u = ziggy_unit();
    assert_eq!(
        artifact_path(&u, Triple::LinuxX8664).as_str(),
        "target/out/zig-lib-ziggy/ziggy.a"
    );
    assert_eq!(
        artifact_path(&u, Triple::WindowsX8664).as_str(),
        "target/out/zig-lib-ziggy/ziggy.lib"
    );
    assert_eq!(header_path(&u).as_str(), "target/out/zig-lib-ziggy/ziggy.h");
}

#[test]
fn nonzero_exit_is_a_compilation_failure_with_verbatim_stderr() {
    let outcome = Ok(InvocationResult {
        exit_code: 1,
        stderr: String::from("ziggy.zig:3:5: error: expected expression"),
    });
    let err = interpret_invocation(outcome).unwrap_err();
    match &err {
        BuildError::CompilationFailure(m) => {
            assert_eq!(m.as_str(), "ziggy.zig:3:5: error: expected expression");
        }
        other => panic!("unexpected error: {:?}", other),
    }
}

#[test]
fn unlaunchable_compiler_is_toolchain_unavailable() {
    let outcome: Result<InvocationResult, String> = Err(String::from("no such file"));
    let err = interpret_invocation(outcome).unwrap_err();
    match &err {
        BuildError::ToolchainUnavailable(m) => {
            assert_eq!(m.as_str(), "unable to execute zig: no such file");
        }
        other => panic!("unexpected error: {:?}", other),
    }
}

#[test]
fn emitted_header_declares_each_symbol() {
    let symbols = vec![add_symbol()];
    let header = emit_header(&symbols);
    assert_eq!(header.as_str(), "int32_t add(int32_t, int32_t);\n");
}

#[test]
fn emitted_header_round_trips_through_the_parser() {
    let symbols = vec![
        add_symbol(),
        Symbol {
            name: String::from("frob_count"),
            params: vec![],
            ret: CType::U64,
        },
        Symbol {
            name: String::from("note"),
            params: vec![CType::Bool, CType::I64, CType::U32],
            ret: CType::Void,
        },
    ];
    let header = emit_header(&symbols);
    let parsed = parse_header(header.as_str()).expect("emitted header parses");
    assert_eq!(parsed, symbols);
}

#[test]
fn unparseable_header_is_a_binding_generation_failure() {
    let err = parse_header("float add(float);\n").unwrap_err();
    assert!(matches!(err, BuildError::BindingGenerationFailure(_)));
    let err = parse_header("int32_t add(int32_t, int32_t)").unwrap_err();
    assert!(matches!(err, BuildError::BindingGenerationFailure(_)));
}

#[test]
fn binding_path_swaps_the_source_extension() {
    assert_eq!(binding_path("src/ziggy.zig").as_str(), "src/ziggy.rs");
    assert_eq!(binding_path("ziggy.zig").as_str(), "ziggy.rs");
    assert_eq!(binding_path("a.b/noext").as_str(), "a.b/noext.rs");
    assert_eq!(binding_path("dir/two.dots.zig").as_str(), "dir/two.dots.rs");
}

#[test]
fn directives_name_the_library_once_each() {
    let u = ziggy_unit();
    let dirs = emit_directives(&u);
    let got: Vec<&str> = dirs.iter().map(|d| d.as_str()).collect();
    assert_eq!(
        got,
        vec![
            "cargo:rustc-link-search=native=target/out/zig-lib-ziggy",
            "cargo:rustc-link-lib=static=ziggy",
            "cargo:rerun-if-changed=src/ziggy.zig",
        ]
    );
}

#[test]
fn successful_unit_produces_bindings_and_directives() {
    let u = ziggy_unit();
    let invocation = Ok(InvocationResult {
        exit_code: 0,
        stderr: String::new(),
    });
    let header = "int32_t add(int32_t, int32_t);\n";
    let out = finish_unit(&u, invocation, true, Some(header)).expect("unit succeeds");
    assert_eq!(out.bindings_path.as_str(), "src/ziggy.rs");
    assert_eq!(out.bindings_text.as_str(), "fn add(i32, i32) -> i32;\n");
    assert_eq!(out.directives.len(), 3);
    let searches = out
        .directives
        .iter()
        .filter(|d| d.starts_with("cargo:rustc-link-search=native="))
        .count();
    let links = out
        .directives
        .iter()
        .filter(|d| d.as_str() == "cargo:rustc-link-lib=static=ziggy")
        .count();
    assert_eq!(searches, 1);
    assert_eq!(links, 1);
}

#[test]
fn failed_unit_emits_diagnostics_verbatim_and_no_directives() {
    let u = ziggy_unit();
    let invocation = Ok(InvocationResult {
        exit_code: 1,
        stderr: String::from("ziggy.zig:1:1: error: expected top-level declaration"),
    });
    let err = finish_unit(&u, invocation, true, None).unwrap_err();
    match &err {
        BuildError::CompilationFailure(m) => {
            assert_eq!(
                m.as_str(),
                "ziggy.zig:1:1: error: expected top-level declaration"
            );
            assert_eq!(err.diagnostic().as_str(), m.as_str());
        }
        other => panic!("unexpected error: {:?}", other),
    }
}

#[test]
fn missing_header_after_success_is_a_binding_generation_failure() {
    let u = ziggy_unit();
    let invocation = Ok(InvocationResult {
        exit_code: 0,
        stderr: String::new(),
    });
    let err = finish_unit(&u, invocation, true, None).unwrap_err();
    assert!(matches!(err, BuildError::BindingGenerationFailure(_)));
}

#[test]
fn a_failing_unit_leaves_earlier_directives_untouched() {
    let mut session = BuildSession::new();
    let first = ziggy_unit();
    session.record_unit_success(&first);
    let before: Vec<String> = session.directives.clone();
    session.record_unit_failure(BuildError::CompilationFailure(String::from(
        "zaggy.zig:2:1: error: invalid token",
    )));
    assert_eq!(session.directives, before);
    assert_eq!(session.directives.len(), 3);
    assert!(session.failure.is_some());
}

#[test]
fn missing_artifact_after_zero_exit_is_a_compilation_failure() {
    let u = ziggy_unit();
    let invocation = Ok(InvocationResult {
        exit_code: 0,
        stderr: String::new(),
    });
    let header = "int32_t add(int32_t, int32_t);\n";
    let err = finish_unit(&u, invocation, false, Some(header)).unwrap_err();
    match &err {
        BuildError::CompilationFailure(m) => {
            assert_eq!(
                m.as_str(),
                "compiler exited successfully but the expected static library is missing"
            );
        }
        other => panic!("unexpected error: {:?}", other),
    }
}

#[test]
fn well_formedness_check_accepts_and_rejects() {
    assert!(symbol_is_wf(&add_symbol()));
    let empty_name = Symbol {
        name: String::new(),
        params: vec![],
        ret: CType::Void,
    };
    assert!(!symbol_is_wf(&empty_name));
    let digit_start = Symbol {
        name: String::from("9lives"),
        params: vec![],
        ret: CType::I32,
    };
    assert!(!symbol_is_wf(&digit_start));
    let void_param = Symbol {
        name: String::from("bad"),
        params: vec![CType::Void],
        ret: CType::I32,
    };
    assert!(!symbol_is_wf(&void_param));
    let spaced = Symbol {
        name: String::from("two words"),
        params: vec![],
        ret: CType::I32,
    };
    assert!(!symbol_is_wf(&spaced));
    assert!(symbols_are_wf(&vec![add_symbol()]));
    assert!(!symbols_are_wf(&vec![add_symbol(), void_param]));
}
