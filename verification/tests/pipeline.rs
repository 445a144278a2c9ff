//! Tests of the whole pipeline: lexing, parsing, translation, rewriting,
//! encoding, and export, driven from source text.

use coala::compilation::Compilation;
use coala::diagnostic::DiagnosticType;
use coala::pipeline::compile;
use coala::settings::Settings;

fn fresh_compilation() -> Compilation {
    Compilation::new(Settings::default())
}

#[test]
pub fn cmp() {
    let settings = Settings::default();
    let mut compilation = fresh_compilation();
    let sources: Vec<(String, String)> = Vec::new();
    let result = compile(&settings, &sources, &mut compilation);
    assert!(result.is_none());
}

fn project_settings() -> Settings {
    let mut settings = Settings::default();
    settings.base_path = Some("proj".to_string());
    settings.optimize = true;
    settings
}

#[test]
fn end_to_end_satisfiable_program() {
    let source = "\
problem {
    sub main(true: a) {
        force a => true
    }
}
solution {
    main true
}
";
    let sources = vec![("proj/main.coala".to_string(), source.to_string())];
    let mut compilation = fresh_compilation();
    let result = compile(&project_settings(), &sources, &mut compilation);
    let (nodes, edges, labels) = result.expect("compilation should produce a graph");
    assert!(nodes.len() >= 3);
    assert!(compilation.is_error_free());
    assert!(!compilation
        .diagnostics()
        .iter()
        .any(|d| d.diagnostic_type == DiagnosticType::Warning));
    assert!(labels.starts_with("Id,Label,Color\n"));
    assert!(edges.contains(";"));
}

#[test]
fn end_to_end_contradictory_program_warns() {
    let source = "\
problem {
    sub main(true: a) {
        force a => true
        force a => false
    }
}
solution {
    main true
}
";
    let sources = vec![("proj/main.coala".to_string(), source.to_string())];
    let mut compilation = fresh_compilation();
    let result = compile(&project_settings(), &sources, &mut compilation);
    assert!(result.is_some());
    assert!(compilation
        .diagnostics()
        .iter()
        .any(|d| d.diagnostic_type == DiagnosticType::Warning));
}

#[test]
fn end_to_end_or_operator() {
    let source = "\
problem {
    sub main(true: a, true: b) {
        force or(a, b) => true
    }
}
solution {
    main (true, false)
}
";
    let sources = vec![("proj/main.coala".to_string(), source.to_string())];
    let mut compilation = fresh_compilation();
    let result = compile(&project_settings(), &sources, &mut compilation);
    let (nodes, _, _) = result.expect("compilation should produce a graph");
    assert!(nodes.len() >= 3);
    assert!(compilation.is_error_free());
}

#[test]
fn missing_main_file_is_an_error() {
    let sources = vec![("proj/other.coala".to_string(), "problem { }".to_string())];
    let mut compilation = fresh_compilation();
    let result = compile(&project_settings(), &sources, &mut compilation);
    assert!(result.is_none());
    assert!(compilation
        .diagnostics()
        .iter()
        .any(|d| d.diagnostic_type == DiagnosticType::Error));
}

#[test]
fn unknown_helper_function_is_an_error() {
    let source = "\
problem {
    sub main(true: a) {
        let x = super::nosuch 3
        force a => true
    }
}
solution {
    main true
}
";
    let sources = vec![("proj/main.coala".to_string(), source.to_string())];
    let mut compilation = fresh_compilation();
    let _ = compile(&project_settings(), &sources, &mut compilation);
    assert!(compilation
        .diagnostics()
        .iter()
        .any(|d| d.diagnostic_type == DiagnosticType::Error));
}

#[test]
fn helper_arithmetic_in_for_loop() {
    let source = "\
problem {
    sub main(true: a) {
        for (i in 2) {
            force a => true
        }
    }
}
solution {
    main true
}
";
    let sources = vec![("proj/main.coala".to_string(), source.to_string())];
    let mut compilation = fresh_compilation();
    let result = compile(&project_settings(), &sources, &mut compilation);
    assert!(result.is_some());
    assert!(compilation.is_error_free());
}

#[test]
fn unresolved_import_is_reported() {
    let source = "\
import lib::helpers
problem {
    sub main(true: a) {
        force a => true
    }
}
solution {
    main true
}
";
    let sources = vec![("proj/main.coala".to_string(), source.to_string())];
    let mut compilation = fresh_compilation();
    let _ = compile(&project_settings(), &sources, &mut compilation);
    assert!(compilation
        .diagnostics()
        .iter()
        .any(|d| d.diagnostic_type == DiagnosticType::Error));
}

#[test]
fn import_of_second_source_is_parsed() {
    let main_source = "\
import lib
problem {
    sub main(true: a) {
        helpers::pass a
    }
}
solution {
    main true
}
";
    let lib_source = "\
collection helpers {
    sub pass(true: x) {
        force x => true
    }
}
";
    let sources = vec![
        ("proj/main.coala".to_string(), main_source.to_string()),
        ("proj/lib.coala".to_string(), lib_source.to_string()),
    ];
    let mut compilation = fresh_compilation();
    let result = compile(&project_settings(), &sources, &mut compilation);
    assert!(result.is_some());
    assert!(compilation.is_error_free());
}

#[test]
fn std_import_is_served_from_caller_sources() {
    // No standard library is bundled, so a std import is looked up among
    // the sources the caller provides.
    let main_source = "\
import std::base
problem {
    sub main(true: a) {
        helpers::pass a
    }
}
solution {
    main true
}
";
    let std_source = "\
collection helpers {
    sub pass(true: x) {
        force x => true
    }
}
";
    let sources = vec![
        ("proj/main.coala".to_string(), main_source.to_string()),
        ("std/base.coala".to_string(), std_source.to_string()),
    ];
    let mut compilation = fresh_compilation();
    let result = compile(&project_settings(), &sources, &mut compilation);
    assert!(result.is_some());
    assert!(compilation.is_error_free());
}

#[test]
fn lexer_reports_integer_overflow() {
    let source = "\
problem {
    sub main(true: a) {
        let x = 99999999999999999999999999999999999999
        force a => true
    }
}
solution {
    main true
}
";
    let sources = vec![("proj/main.coala".to_string(), source.to_string())];
    let mut compilation = fresh_compilation();
    let _ = compile(&project_settings(), &sources, &mut compilation);
    assert!(compilation
        .diagnostics()
        .iter()
        .any(|d| d.diagnostic_type == DiagnosticType::Error));
}
