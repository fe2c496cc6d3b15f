use kontrocode::review::review_diff;

#[test]
fn added_lines_are_reviewed() {
    let diff = "diff --git a/src/main.rs b/src/main.rs\n--- a/src/main.rs\n+++ b/src/main.rs\n@@ -1,2 +1,3 @@\n fn main() {\n+    let x = foo().unwrap(); // TODO\n }\n";
    let r = review_diff(diff);
    assert_eq!(r.comments.len(), 2);
    assert_eq!(r.comments[0].file, "src/main.rs");
    assert_eq!(r.comments[0].line, Some(3));
    assert_eq!(r.comments[0].text, "Found TODO/FIXME: `let x = foo().unwrap(); // TODO`");
    assert_eq!(r.comments[0].severity, "info");
    assert_eq!(r.comments[1].text, "Consider using proper error handling instead of `unwrap()`");
    assert_eq!(r.comments[1].severity, "warning");
    assert_eq!(r.comments[1].line, Some(3));
}

#[test]
fn blank_diff_has_no_comments() {
    assert!(review_diff("  \n ").comments.is_empty());
    assert!(review_diff("").comments.is_empty());
}

#[test]
fn removed_lines_are_not_counted() {
    let diff = "-old\n-older\n+println!(\"x\");\n";
    let r = review_diff(diff);
    assert_eq!(r.comments.len(), 1);
    assert_eq!(r.comments[0].line, Some(0));
    assert_eq!(r.comments[0].file, "");
    assert_eq!(r.comments[0].text, "Debug print statement found — remove before merge");
}

#[test]
fn context_lines_advance_the_line_number() {
    let diff = " a\n b\n+console.log(1)\n";
    let r = review_diff(diff);
    assert_eq!(r.comments.len(), 1);
    assert_eq!(r.comments[0].line, Some(2));
}

#[test]
fn file_header_strips_b_prefix() {
    let diff = "diff --git a/x.js b/b/x.js\n+// FIXME later\n";
    let r = review_diff(diff);
    assert_eq!(r.comments.len(), 1);
    assert_eq!(r.comments[0].file, "x.js");
    assert_eq!(r.comments[0].text, "Found TODO/FIXME: `// FIXME later`");
}
