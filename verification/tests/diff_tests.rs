use kontrocode::diff::{apply_diff, compute_diff, longest_common_subsequence, unified_diff, DiffLine};

#[test]
fn simple_diff() {
    let old = "line1\nline2\nline3\n";
    let new = "line1\nline2_changed\nline3\n";
    let hunks = compute_diff(old, new);
    let unified = unified_diff(&hunks);
    assert!(unified.contains("line2_changed"));
    assert!(unified.contains("line2"));
}

#[test]
fn apply_diff_roundtrip() {
    let original = "hello\nworld\n";
    let modified = "hello\nkontrocode\nworld\n";
    let hunks = compute_diff(original, modified);
    let result = apply_diff(original, &hunks);
    assert_eq!(result.trim(), "hello\nkontrocode\nworld");
}

#[test]
fn unified_diff_of_one_changed_line() {
    let hunks = compute_diff("line1\nline2\nline3\n", "line1\nline2_changed\nline3\n");
    assert_eq!(
        unified_diff(&hunks),
        "--- a/\n+++ b/\n@@ -0,3 +0,3 @@ \n line1\n-line2\n+line2_changed\n line3\n"
    );
}

#[test]
fn identical_texts_give_context_only() {
    let hunks = compute_diff("a\nb\n", "a\nb\n");
    assert_eq!(hunks.len(), 1);
    assert_eq!(hunks[0].lines.len(), 2);
    assert!(hunks[0].lines.iter().all(|l| matches!(l, DiffLine::Context(_))));
}

#[test]
fn empty_texts_give_no_hunks() {
    assert!(compute_diff("", "").is_empty());
}

#[test]
fn apply_without_hunks_keeps_original() {
    assert_eq!(apply_diff("keep me", &[]), "keep me");
}

#[test]
fn applying_a_diff_yields_the_new_lines() {
    let hunks = compute_diff("a\nb\nc", "x\nb\ny\nz");
    assert_eq!(apply_diff("a\nb\nc", &hunks), "x\nb\ny\nz\n");
}

#[test]
fn diff_lines_render_with_markers() {
    assert_eq!(DiffLine::Context("c".to_string()).to_unified(), " c");
    assert_eq!(DiffLine::Addition("a".to_string()).to_unified(), "+a");
    assert_eq!(DiffLine::Deletion("d".to_string()).to_unified(), "-d");
}

#[test]
fn lcs_pairs_common_lines() {
    let a: Vec<String> = ["a", "b", "c"].iter().map(|s| s.to_string()).collect();
    let b: Vec<String> = ["a", "c"].iter().map(|s| s.to_string()).collect();
    assert_eq!(longest_common_subsequence(&a, &b), vec![(0, 0), (2, 1)]);
}

#[test]
fn deletion_only_diff() {
    let hunks = compute_diff("a\nb\n", "a\n");
    assert_eq!(unified_diff(&hunks), "--- a/\n+++ b/\n@@ -0,2 +0,1 @@ \n a\n-b\n");
}
