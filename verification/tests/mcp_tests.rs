use kontrocode::mcp::{env_reference, list_available_mcps, McpRegistry, McpServerConfig, TemplateConfig, TemplateRegistry};

fn server(name: &str) -> McpServerConfig {
    McpServerConfig {
        name: name.to_string(),
        description: format!("{name} server"),
        command: "npx".to_string(),
        args: vec![format!("@mcp/{name}")],
        env: vec![("TOKEN".to_string(), "${GITHUB_TOKEN}".to_string())],
    }
}

fn registry() -> McpRegistry {
    let mut r = McpRegistry::new();
    r.insert("github".to_string(), server("GitHub"));
    r.insert("fs".to_string(), server("Files"));
    r
}

#[test]
fn registry_lookup_by_id() {
    let r = registry();
    assert_eq!(r.get("fs").map(|s| s.name.as_str()), Some("Files"));
    assert!(r.get("slack").is_none());
    let ids: Vec<&str> = r.list().into_iter().map(|s| s.as_str()).collect();
    assert_eq!(ids, vec!["github", "fs"]);
    assert_eq!(list_available_mcps(&r), vec!["github".to_string(), "fs".to_string()]);
}

#[test]
fn env_references_are_recognized() {
    assert_eq!(env_reference("${GITHUB_TOKEN}"), Some("GITHUB_TOKEN".to_string()));
    assert_eq!(env_reference("${}"), Some(String::new()));
    assert_eq!(env_reference("plain"), None);
    assert_eq!(env_reference("$HOME"), None);
}

fn template(name: &str, stack: &str, category: &str, featured: bool) -> TemplateConfig {
    TemplateConfig {
        name: name.to_string(),
        description: String::new(),
        stack: stack.to_string(),
        category: category.to_string(),
        featured,
        command: None,
        args: None,
        env: Vec::new(),
        mcp_required: Vec::new(),
    }
}

#[test]
fn templates_filter_by_field() {
    let mut r = TemplateRegistry::new();
    r.insert("a".to_string(), template("A", "flutter", "mobile", true));
    r.insert("b".to_string(), template("B", "react", "web", false));
    r.insert("c".to_string(), template("C", "flutter", "web", true));
    let names = |v: Vec<&TemplateConfig>| v.into_iter().map(|t| t.name.clone()).collect::<Vec<_>>();
    assert_eq!(names(r.featured()), vec!["A", "C"]);
    assert_eq!(names(r.by_stack("flutter")), vec!["A", "C"]);
    assert_eq!(names(r.by_category("web")), vec!["B", "C"]);
    assert!(r.by_stack("go").is_empty());
}

#[test]
fn registering_an_id_again_replaces_its_server() {
    let mut r = registry();
    r.insert("github".to_string(), server("GitHub Enterprise"));
    assert_eq!(list_available_mcps(&r), vec!["github".to_string(), "fs".to_string()]);
    assert_eq!(r.get("github").map(|s| s.name.as_str()), Some("GitHub Enterprise"));
    assert_eq!(r.servers().len(), 2);
    assert!(list_available_mcps(&McpRegistry::new()).is_empty());
}

#[test]
fn registering_a_template_id_again_replaces_it() {
    let mut r = TemplateRegistry::new();
    r.insert("a".to_string(), template("A", "flutter", "mobile", true));
    r.insert("a".to_string(), template("A2", "react", "web", false));
    assert_eq!(r.templates().len(), 1);
    assert!(r.featured().is_empty());
    assert_eq!(r.by_stack("react").len(), 1);
}
