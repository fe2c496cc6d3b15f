use kontrocode::docs::{docs_rs_candidate, docs_rs_url, flutter_candidates, flutter_page_url, nodejs_candidate, nodejs_url, topic_word};

#[test]
fn topic_subject_is_first_word() {
    assert_eq!(topic_word("  riverpod state management"), "riverpod");
    assert_eq!(topic_word("   "), "   ");
}

#[test]
fn documentation_addresses() {
    assert_eq!(flutter_page_url("widgets"), "https://api.flutter.dev/flutter/widgets/widgets-library.html");
    assert_eq!(docs_rs_url("serde"), "https://docs.rs/serde/latest/serde/index.html");
    assert_eq!(nodejs_url("fs"), "https://nodejs.org/api/fs.html");
}

#[test]
fn flutter_page_findings_stop_at_the_class() {
    let html = "<p>intro</p>\n  <div>Deprecated API</div>\n<h1>class Widget</h1>\n<p>deprecated later</p>\n";
    let c = flutter_candidates("Widget", "u", html);
    assert_eq!(c.len(), 2);
    assert_eq!(c[0].reason, "DEPRECATED at flutter.dev: <div>Deprecated API</div>");
    assert_eq!(c[0].score_pct, 10);
    assert_eq!(c[1].reason, "Official Flutter class documented at flutter.dev");
    assert_eq!(c[1].score_pct, 95);
    assert_eq!(c[1].url.as_deref(), Some("u"));
    assert!(c.iter().all(|x| x.name == "Widget" && x.version == "latest" && x.source == "flutter.dev"));
}

#[test]
fn docs_rs_answers() {
    let found = docs_rs_candidate("serde", "u", true);
    assert_eq!((found.version.as_str(), found.score_pct, found.reason.as_str()), ("latest", 90, "Official Rust docs at docs.rs/serde"));
    let missing = docs_rs_candidate("nope", "u", false);
    assert_eq!((missing.version.as_str(), missing.score_pct, missing.reason.as_str()), ("unknown", 30, "No docs.rs entry for nope"));
    assert!(missing.url.is_none());
}

#[test]
fn node_stability_decides_the_score() {
    let stable = nodejs_candidate("fs", "u", "Stability: 2 - Stable");
    assert_eq!((stable.score_pct, stable.reason.as_str()), (85, "nodejs.org docs: fs (stable)"));
    let old = nodejs_candidate("domain", "u", "Stability: 0 - Deprecated");
    assert_eq!((old.score_pct, old.reason.as_str()), (10, "nodejs.org docs: domain (deprecated)"));
    let unknown = nodejs_candidate("x", "u", "");
    assert_eq!((unknown.score_pct, unknown.reason.as_str()), (85, "nodejs.org docs: x (unknown)"));
}
