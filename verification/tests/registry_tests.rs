use kontrocode::registry::{npm_candidate, npm_registry_url, pub_dev_api_url, pub_dev_candidate};

#[test]
fn registry_urls() {
    assert_eq!(pub_dev_api_url("provider"), "https://pub.dev/api/packages/provider");
    assert_eq!(npm_registry_url("react"), "https://registry.npmjs.org/react");
}

#[test]
fn pub_dev_scores_by_version_count() {
    let c = pub_dev_candidate("riverpod".to_string(), "riverpod", "2.5.1".to_string(), Some("State".to_string()), 42);
    assert_eq!(c.name, "riverpod");
    assert_eq!(c.version, "2.5.1");
    assert_eq!(c.score_pct, 42);
    assert_eq!(c.reason, "State");
    assert_eq!(c.source, "pub.dev");
    assert_eq!(c.url.as_deref(), Some("https://pub.dev/packages/riverpod"));
    let many = pub_dev_candidate("http".to_string(), "http", "1.2.0".to_string(), None, 250);
    assert_eq!(many.score_pct, 100);
    assert_eq!(many.reason, "");
}

#[test]
fn npm_scores_deprecation_low() {
    let c = npm_candidate("request", "request".to_string(), Some("2.88.2"), true, None);
    assert_eq!(c.version, "2.88.2");
    assert_eq!(c.score_pct, 10);
    assert_eq!(c.source, "npm");
    assert_eq!(c.url.as_deref(), Some("https://www.npmjs.com/package/request"));
    let fresh = npm_candidate("zod", "zod".to_string(), None, false, Some("schemas".to_string()));
    assert_eq!(fresh.version, "unknown");
    assert_eq!(fresh.score_pct, 90);
    assert_eq!(fresh.reason, "schemas");
}
