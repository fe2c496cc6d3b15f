use kontrocode::completion::{CompletionEngine, CompletionRequest};

fn request(content: &str, line: usize, col: usize, language: &str, path: &str) -> CompletionRequest {
    CompletionRequest {
        file_path: path.to_string(),
        file_content: content.to_string(),
        cursor_line: line,
        cursor_col: col,
        language: language.to_string(),
        max_tokens: 64,
    }
}

#[test]
fn bracket_and_import_suggestions() {
    let e = CompletionEngine::new();
    let out = e.complete(&request("fn main() {\n    foo(\n}\n", 1, 8, "rust", "src/lib.rs"));
    let got: Vec<(String, u8, usize, usize)> =
        out.into_iter().map(|c| (c.text, c.confidence_pct, c.range_start_line, c.range_end_line)).collect();
    assert_eq!(got, vec![(")".to_string(), 100, 1, 1), ("use std::".to_string(), 70, 1, 1)]);
}

#[test]
fn function_template_comes_before_import() {
    let e = CompletionEngine::new();
    let out = e.complete(&request("def ", 0, 4, "python", "a.py"));
    let got: Vec<(String, u8, usize, usize)> =
        out.into_iter().map(|c| (c.text, c.confidence_pct, c.range_start_line, c.range_end_line)).collect();
    assert_eq!(
        got,
        vec![("def name():\n    pass\n".to_string(), 80, 0, 4), ("import ".to_string(), 70, 0, 0)]
    );
}

#[test]
fn empty_prefix_gets_boilerplate() {
    let e = CompletionEngine::new();
    let out = e.complete(&request("use std::io;\n\n", 1, 0, "rust", "src/main.rs"));
    assert_eq!(out.len(), 1);
    assert_eq!(out[0].text, "fn main() {\n    println!(\"Hello, KontroCode!\");\n}\n");
    assert_eq!(out[0].confidence_pct, 50);
    assert_eq!(out[0].range_end_line, 6);
}

#[test]
fn cursor_past_the_end_gives_nothing() {
    let e = CompletionEngine::new();
    assert!(e.complete(&request("one line", 3, 0, "rust", "x.rs")).is_empty());
}

#[test]
fn helper_suggestions() {
    let e = CompletionEngine::new();
    assert_eq!(e.complete_bracket("let v = vec!["), Some("]".to_string()));
    assert_eq!(e.complete_bracket("<div></div><"), None);
    assert_eq!(e.complete_bracket("<div"), None);
    assert_eq!(e.complete_bracket("Vec<"), Some(">".to_string()));
    let lines = vec!["import os".to_string()];
    assert_eq!(e.suggest_import("x = 1", "python", &lines), None);
    assert_eq!(e.generate_function_template("go"), "func Name() error {\n\treturn nil\n}\n");
    assert_eq!(e.common_patterns("go", "cmd/main.go").is_some(), true);
}
