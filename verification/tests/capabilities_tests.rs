use kontrocode::capabilities::{AgentMode, ApprovalMode, ContextCompactor, ScoutSubagent, SelfCorrector, TestGenerator};

#[test]
fn self_corrector_counts_down() {
    let mut s = SelfCorrector::new();
    assert_eq!(s.attempts_left(), 3);
    assert!(s.should_retry());
    assert_eq!(s.record_attempt("E1"), Some("[Retry 1/3] Compile error: E1".to_string()));
    assert_eq!(s.record_attempt("E2"), Some("[Retry 2/3] Compile error: E2".to_string()));
    assert_eq!(s.record_attempt("E3"), None);
    assert_eq!(s.attempts_left(), 0);
    assert!(!s.should_retry());
    assert_eq!(s.record_attempt("E4"), None);
    assert_eq!(s.attempts_left(), 0);
}

#[test]
fn error_location_from_arrow_line() {
    let stderr = "warning: unused\nerror: here --> src/main.rs:10:5\n";
    assert_eq!(SelfCorrector::extract_error_location(stderr), Some(("src/main.rs".to_string(), 10)));
}

#[test]
fn error_location_falls_back_to_message() {
    assert_eq!(
        SelfCorrector::extract_error_location("note: x\nerror: linker failed\n"),
        Some(("linker failed".to_string(), 0))
    );
    assert_eq!(SelfCorrector::extract_error_location("all good"), None);
}

#[test]
fn error_location_with_unparsable_line_number() {
    assert_eq!(
        SelfCorrector::extract_error_location("error --> lib.rs:abc"),
        Some(("lib.rs".to_string(), 0))
    );
}

#[test]
fn approval_modes() {
    assert!(AgentMode::normal().should_prompt_for_approval());
    assert!(!AgentMode::yolo().should_prompt_for_approval());
    let b = AgentMode::background();
    assert_eq!(b.approval, ApprovalMode::Background);
    assert_eq!(b.max_parallel_tasks, 2);
    assert_eq!(AgentMode::yolo().max_parallel_tasks, 8);
}

#[test]
fn compactor_keeps_system_and_last_five() {
    let c = ContextCompactor::new(10);
    let msgs: Vec<String> = (0..7).map(|i| format!("message{i}")).collect();
    let out = c.compact(&msgs, "sys");
    let mut want = vec!["[system]: sys".to_string(), "[Context compacted — earlier messages summarized]".to_string()];
    want.extend(msgs[2..].iter().cloned());
    assert_eq!(out, want);
}

#[test]
fn compactor_leaves_small_conversations() {
    let c = ContextCompactor::new(100);
    let msgs = vec!["hi".to_string(), "there".to_string()];
    assert_eq!(c.compact(&msgs, "sys"), msgs);
    assert_eq!(ContextCompactor::estimate_tokens("abcdefghi"), 2);
}

#[test]
fn generated_tests_by_language() {
    let rust = TestGenerator::generate_test_for("src/lib.rs", "", "rust");
    assert!(rust.contains("fn test_src::lib()"));
    assert_eq!(
        TestGenerator::generate_test_for("app/main.py", "", "python"),
        "import pytest\n\ndef test_app_main():\n    assert True\n"
    );
    assert_eq!(
        TestGenerator::generate_test_for("x.c", "", "c"),
        "// TODO: add tests for x.c\n// Language: c\n"
    );
    assert!(TestGenerator::generate_test_for("pkg/util.go", "", "go").starts_with("package util\n"));
    assert!(TestGenerator::generate_test_for("src/a.ts", "", "typescript").starts_with("describe('src_a', "));
}

#[test]
fn scout_keeps_its_root() {
    assert_eq!(ScoutSubagent::new("/work".to_string()).project_root(), "/work");
}

#[test]
fn scout_reports_directories_and_sources() {
    assert_eq!(ScoutSubagent::finding("src", true, false, None, 0), Some("📁 src/".to_string()));
    assert_eq!(ScoutSubagent::finding("target", true, false, None, 0), None);
    assert_eq!(ScoutSubagent::finding(".git", true, false, None, 0), None);
    assert_eq!(ScoutSubagent::finding("main.rs", false, true, Some("rs"), 4000), Some("📄 main.rs (100 lines)".to_string()));
    assert_eq!(ScoutSubagent::finding("app.dart", false, true, Some("dart"), 39), Some("📄 app.dart (0 lines)".to_string()));
    assert_eq!(ScoutSubagent::finding("notes.md", false, true, Some("md"), 400), None);
    assert_eq!(ScoutSubagent::finding("Makefile", false, true, None, 400), None);
}
