use kontrocode::decide::validate_version_conflict;
use kontrocode::version::{DepInfo, VersionResolver};

fn dep(name: &str, version: &str) -> DepInfo {
    DepInfo { name: name.to_string(), version: version.to_string(), source: "test".to_string(), is_direct: true }
}

#[test]
fn conflicts_and_warnings_are_reported() {
    let deps = vec![dep("serde", "1.0.0"), dep("tokio", "0.2.0"), dep("serde", "1.0.1"), dep("foo", "2.0.0-beta.1")];
    let r = VersionResolver::check_conflicts(&deps);
    assert_eq!(r.conflicts, vec!["serde: multiple versions — 1.0.0, 1.0.1".to_string()]);
    assert_eq!(
        r.warnings,
        vec![
            "tokio@0.2.0 is pre-1.0, may have breaking changes".to_string(),
            "foo@2.0.0-beta.1 is pre-release".to_string()
        ]
    );
    assert!(r.suggestions.is_empty());
}

#[test]
fn clean_dependencies_get_all_clear() {
    let r = VersionResolver::check_conflicts(&[dep("serde", "1.0.0"), dep("anyhow", "1.0.86")]);
    assert!(r.conflicts.is_empty());
    assert!(r.warnings.is_empty());
    assert_eq!(r.suggestions, vec!["No version conflicts detected".to_string()]);
}

#[test]
fn release_candidate_zero_version_gets_two_warnings() {
    let r = VersionResolver::check_conflicts(&[dep("x", "0.1.0-rc1")]);
    assert_eq!(
        r.warnings,
        vec!["x@0.1.0-rc1 is pre-1.0, may have breaking changes".to_string(), "x@0.1.0-rc1 is pre-release".to_string()]
    );
}

#[test]
fn three_versions_one_conflict_line() {
    let r = VersionResolver::check_conflicts(&[dep("a", "1"), dep("b", "2"), dep("a", "3"), dep("a", "4")]);
    assert_eq!(r.conflicts, vec!["a: multiple versions — 1, 3, 4".to_string()]);
}

#[test]
fn cargo_manifest_dependencies_are_read() {
    let toml = "[package]\nname = \"x\"\n\n[dependencies]\nserde = \"1.0\"\n# comment\ntokio = { version = \"1\" }\nanyhow='1'\n[dev-dependencies]\ntempfile = \"3\"\n";
    let deps = VersionResolver::parse_cargo_toml_content(toml);
    let pairs: Vec<(String, String)> = deps.iter().map(|d| (d.name.clone(), d.version.clone())).collect();
    assert_eq!(
        pairs,
        vec![
            ("serde".to_string(), "1.0".to_string()),
            ("tokio".to_string(), "{ version = \"1\" }".to_string()),
            ("anyhow".to_string(), "1".to_string())
        ]
    );
    assert!(deps.iter().all(|d| d.source == "Cargo.toml" && d.is_direct));
}

#[test]
fn pubspec_yields_no_entries() {
    assert!(VersionResolver::parse_pubspec_content("dependencies:\n  http: ^1.0\n  provider\n").is_empty());
}

#[test]
fn pre_release_dependencies_are_flagged() {
    let deps = vec![("a".to_string(), "0.1".to_string()), ("b".to_string(), "1.0".to_string())];
    assert_eq!(validate_version_conflict(&deps), vec!["a@0.1 is pre-1.0, breaking changes may occur".to_string()]);
}

fn fields(d: &DepInfo) -> (String, String, String, bool) {
    (d.name.clone(), d.version.clone(), d.source.clone(), d.is_direct)
}

#[test]
fn package_json_lists_runtime_then_dev() {
    let text = r#"{"name":"app","dependencies":{"react":"^18.2.0"},"devDependencies":{"jest":"29.7.0"}}"#;
    let deps = VersionResolver::parse_package_json_content(text).expect("valid JSON");
    let got: Vec<_> = deps.iter().map(fields).collect();
    assert_eq!(
        got,
        vec![
            ("react".to_string(), "^18.2.0".to_string(), "package.json".to_string(), true),
            ("jest".to_string(), "29.7.0".to_string(), "package.json (dev)".to_string(), false),
        ]
    );
}

#[test]
fn package_json_non_string_version_reads_latest() {
    let text = r#"{"dependencies":{"local":{"path":"../local"}}}"#;
    let deps = VersionResolver::parse_package_json_content(text).expect("valid JSON");
    assert_eq!(deps.len(), 1);
    assert_eq!(deps[0].name, "local");
    assert_eq!(deps[0].version, "latest");
}

#[test]
fn package_json_without_tables_is_empty() {
    let deps = VersionResolver::parse_package_json_content(r#"{"name":"bare"}"#).expect("valid JSON");
    assert!(deps.is_empty());
}

#[test]
fn package_json_rejects_non_json() {
    assert!(VersionResolver::parse_package_json_content("dependencies = 1").is_none());
}

#[test]
fn package_tables_build_deps() {
    let runtime = Some(vec![("a".to_string(), Some("1".to_string())), ("b".to_string(), None)]);
    let deps = VersionResolver::deps_from_package_tables(runtime, None);
    let got: Vec<_> = deps.iter().map(fields).collect();
    assert_eq!(
        got,
        vec![
            ("a".to_string(), "1".to_string(), "package.json".to_string(), true),
            ("b".to_string(), "latest".to_string(), "package.json".to_string(), true),
        ]
    );
}

#[test]
fn package_json_table_that_is_not_an_object_is_skipped() {
    let text = r#"{"dependencies":["react"],"devDependencies":{"vitest":"1.0.0","eslint":"9.0.0"}}"#;
    let deps = VersionResolver::parse_package_json_content(text).expect("valid JSON");
    let mut names: Vec<_> = deps.iter().map(|d| d.name.clone()).collect();
    names.sort();
    assert_eq!(names, vec!["eslint".to_string(), "vitest".to_string()]);
    assert!(deps.iter().all(|d| !d.is_direct && d.source == "package.json (dev)"));
}
