use self_smart::tools::analyze::{CodeAnalyzer, CodeFile};
use self_smart::tools::document::DocGenerator;
use self_smart::tools::generate::{CodeGenerator, GenerateRequest};
use self_smart::tools::refactor::{RefactorOutcome, RefactorRequest, Refactorer};
use self_smart::tools::test::{CargoCommand, TestRunner};

#[test]
fn languages_from_extensions() {
    let g = CodeGenerator::new();
    assert_eq!(g.detect_language("src/main.rs"), "rust");
    assert_eq!(g.detect_language("a/b.py"), "python");
    assert_eq!(g.detect_language("x.cpp"), "cpp");
    assert_eq!(g.detect_language("Makefile"), "unknown");
    assert_eq!(g.detect_language(".hidden"), "unknown");
    assert_eq!(CodeGenerator::language_for_extension(Some("ts")), "typescript");
    assert_eq!(g.name(), "generate");
}

#[test]
fn boilerplate_texts() {
    let g = CodeGenerator::new();
    let other = g.generate_boilerplate("notes/todo.txt", "unknown");
    assert_eq!(other, "// todo module\n// TODO: Implement functionality\n");
    let rust = g.generate_boilerplate("src/parser.rs", "rust");
    assert!(rust.starts_with("//! parser module\n\nuse anyhow::Result;\n"));
    assert!(rust.contains("    todo!(\"Implement parser\")\n"));
    let py = g.generate_boilerplate("tool.py", "python");
    assert_eq!(
        py,
        "\"\"\"tool module.\"\"\"\n\n\ndef run():\n    \"\"\"TODO: Implement tool functionality.\"\"\"\n    raise NotImplementedError(\"Implement tool\")\n\n\nif __name__ == \"__main__\":\n    run()\n"
    );
}

#[test]
fn generate_plan_uses_language_or_extension() {
    let g = CodeGenerator::new();
    let req = GenerateRequest::from_plain_args("  out/lib.go \n");
    assert_eq!(req.path, "out/lib.go");
    assert_eq!(req.description, "Generate boilerplate");
    let p = g.plan(&req);
    assert_eq!(p.language, "go");
    assert_eq!(p.content, "// lib module\n// TODO: Implement functionality\n");
    let asked = GenerateRequest { path: "x.rs".into(), description: "d".into(), language: Some("python".into()) };
    assert_eq!(g.plan(&asked).language, "python");
    assert_eq!(CodeGenerator::created_result(&p).output, "Created out/lib.go with go boilerplate");
    assert_eq!(CodeGenerator::exists_result("a.rs").error.as_deref(), Some("File already exists: a.rs"));
}

#[test]
fn file_analysis_report() {
    let a = CodeAnalyzer::new();
    let content = "fn main() {\n    // TODO: tidy\n}\nstruct S;\nimpl S {}\n";
    let report = a.analyze_content("src/x.rs", content);
    assert_eq!(
        report,
        "File: src/x.rs\nLanguage: rs\nLines: 5\nSize: 52 bytes\nFunctions: 1\nStructs: 1\nImpl blocks: 1\nTODOs/FIXMEs:\n  Line 2: // TODO: tidy"
    );
    assert_eq!(a.analyze_content("README", ""), "File: README\nLanguage: unknown\nLines: 0\nSize: 0 bytes");
}

#[test]
fn directory_totals_count_readable_code_files() {
    let a = CodeAnalyzer::new();
    let files = vec![
        CodeFile { extension: Some("rs".into()), content: Some("a\nb\n".into()) },
        CodeFile { extension: Some("md".into()), content: Some("x\ny\nz".into()) },
        CodeFile { extension: Some("py".into()), content: None },
        CodeFile { extension: None, content: Some("q".into()) },
        CodeFile { extension: Some("c".into()), content: Some("1\n2\n3".into()) },
    ];
    assert_eq!(a.analyze_files("proj", &files).unwrap(), "Directory: proj\nCode files: 2\nTotal lines: 5");
    assert!(CodeAnalyzer::is_code_extension("go"));
    assert!(!CodeAnalyzer::is_code_extension("txt"));
}

#[test]
fn rust_and_python_outlines() {
    let d = DocGenerator::new();
    let rs = "pub fn add(a: i32) -> i32 {\n}\npub struct Point {\n    x: i32,\n}\nfn hidden() {}\n";
    assert_eq!(
        d.extract_rust_docs(rs),
        "## Function: `add`\n```rust\npub fn add(a: i32) -> i32 {\n```\n\n## Struct: `Point`"
    );
    assert_eq!(d.extract_rust_docs("fn private() {}"), "No public API documentation found.");
    let py = "def one(x):\n    pass\nasync def two():\n  def inner():\n";
    assert_eq!(d.extract_python_docs(py), "## Function: `one`\n## Function: `two`");
    assert_eq!(d.extract_python_docs("x = 1"), "No function documentation found.");
    assert_eq!(
        d.generate_file_docs("notes.txt", "a\nb"),
        "# Documentation for notes.txt\n\nFile type 'txt' - basic documentation:\n- Lines: 2\n- Size: 3 bytes"
    );
    assert_eq!(
        d.generate_file_docs("m.py", "def f():\n"),
        "# Documentation for m.py\n\n## Function: `f`"
    );
}

#[test]
fn smells_magic_numbers_and_duplicates() {
    let r = Refactorer::new();
    let content = "x = 42\n// 99 in a comment\ny = 1 + -1 + 0 + -7\n";
    assert!(Refactorer::braces_fit_check(content));
    let smells = r.detect_code_smells(content);
    assert_eq!(
        smells,
        vec![
            "Possible magic number 42 at line 1".to_string(),
            "Possible magic number -7 at line 3".to_string()
        ]
    );
    let block = "a\nb\nc\nd\ne\n";
    let dup = format!("{}{}{}", block, block, "z\n");
    let smells = r.detect_code_smells(&dup);
    assert_eq!(smells, vec!["Duplicate code block at lines 1 and 6".to_string()]);
}

#[test]
fn smells_long_function() {
    let r = Refactorer::new();
    let mut content = String::from("fn big() {\n");
    for i in 0..51 {
        content.push_str(&format!("    call_{}();\n", i));
    }
    content.push_str("}\n");
    let smells = r.detect_code_smells(&content);
    assert_eq!(smells, vec!["Long function starting at line 1 (52 lines)".to_string()]);
    let short = "fn small() {\n    x();\n}\n";
    assert!(r.detect_code_smells(short).is_empty());
}

#[test]
fn refactor_plans() {
    let r = Refactorer::new();
    let req = RefactorRequest::from_plain_args(" src/a.rs ");
    assert_eq!(req.path, "src/a.rs");
    assert_eq!(req.operation, "analyze");
    match r.plan(&req, "fn f() {}\n") {
        RefactorOutcome::Report(res) => assert_eq!(res.output, "No obvious code smells detected."),
        _ => panic!(),
    }
    match r.plan(&req, "x = 5\n") {
        RefactorOutcome::Report(res) => {
            assert_eq!(res.output, "Found 1 potential issues:\nPossible magic number 5 at line 1")
        }
        _ => panic!(),
    }
    let rename = RefactorRequest {
        path: "src/a.rs".into(),
        operation: "rename".into(),
        target: Some("foo".into()),
        replacement: Some("bar".into()),
    };
    match r.plan(&rename, "foo(foo)") {
        RefactorOutcome::Rewrite { content, result } => {
            assert_eq!(content, "bar(bar)");
            assert_eq!(result.output, "Renamed 'foo' to 'bar' in src/a.rs");
        }
        _ => panic!(),
    }
    let missing = RefactorRequest { path: "p".into(), operation: "rename".into(), target: None, replacement: None };
    match r.plan(&missing, "") {
        RefactorOutcome::Failed(m) => assert_eq!(m, "Target name required for rename"),
        _ => panic!(),
    }
    let missing2 = RefactorRequest { path: "p".into(), operation: "rename".into(), target: Some("a".into()), replacement: None };
    match r.plan(&missing2, "") {
        RefactorOutcome::Failed(m) => assert_eq!(m, "Replacement name required for rename"),
        _ => panic!(),
    }
    let other = RefactorRequest { path: "p".into(), operation: "inline".into(), target: None, replacement: None };
    match r.plan(&other, "") {
        RefactorOutcome::Report(res) => assert_eq!(res.error.as_deref(), Some("Unknown operation: inline")),
        _ => panic!(),
    }
}

#[test]
fn test_runner_arguments_and_reports() {
    assert_eq!(TestRunner::parse_args(""), ("test".to_string(), ".".to_string()));
    assert_eq!(TestRunner::parse_args(" clippy  crates/x extra"), ("clippy".to_string(), "crates/x".to_string()));
    assert_eq!(TestRunner::command_kind("check"), Some(CargoCommand::Check));
    assert_eq!(TestRunner::command_kind("bench"), None);
    assert_eq!(TestRunner::cargo_args(CargoCommand::Clippy), vec!["clippy", "--", "-D", "warnings"]);
    assert_eq!(TestRunner::report(CargoCommand::Test, true, "ok", "warn"), "Tests passed!\nok");
    assert_eq!(TestRunner::report(CargoCommand::Check, false, "out", "err"), "Check failed:\nout\nerr");
    assert_eq!(TestRunner::report(CargoCommand::Clippy, false, "o", "e"), "Clippy warnings/errors:\no\ne");
    assert_eq!(
        TestRunner::unknown_command_result("bench").error.as_deref(),
        Some("Unknown test command: bench. Use 'test', 'check', or 'clippy'")
    );
    assert_eq!(TestRunner::missing_directory_result("d").error.as_deref(), Some("Directory not found: d"));
}

#[test]
fn analysis_and_docs_for_a_given_extension() {
    let a = CodeAnalyzer::new();
    assert_eq!(
        a.analyze_content_with_extension("lib", Some("go"), "func main()\n"),
        "File: lib\nLanguage: go\nLines: 1\nSize: 12 bytes"
    );
    assert_eq!(
        a.analyze_content_with_extension("x.rs", None, ""),
        "File: x.rs\nLanguage: unknown\nLines: 0\nSize: 0 bytes"
    );
    let d = DocGenerator::new();
    assert_eq!(
        d.generate_file_docs_with_extension("lib", Some("rs"), "pub struct A {}\n"),
        "# Documentation for lib\n\n## Struct: `A`"
    );
    assert_eq!(
        d.generate_file_docs_with_extension("x.py", None, "ab"),
        "# Documentation for x.py\n\nFile type 'unknown' - basic documentation:\n- Lines: 1\n- Size: 2 bytes"
    );
}
