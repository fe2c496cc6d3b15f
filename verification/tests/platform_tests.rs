use kontrocode::config::{MemoryBackend, ResearchConfig, RouterMode, UiConfig};
use kontrocode::platform::{OfflineMode, Onboarding, ResponseLanguage};

#[test]
fn welcome_is_translated() {
    assert_eq!(ResponseLanguage::Banglish.translate("welcome"), "👋 Welcome! Ami KontroCode. Ki korbo bolen?");
    assert_eq!(ResponseLanguage::Bengali.translate("welcome"), "👋 স্বাগতম! আমি KontroCode। কী করবো বলুন?");
    assert_eq!(ResponseLanguage::English.translate("welcome"), "welcome");
    assert_eq!(ResponseLanguage::Banglish.translate("bye"), "bye");
}

#[test]
fn onboarding_counts_to_five() {
    assert_eq!(Onboarding::flow(ResponseLanguage::English, 2), vec!["welcome".to_string(), "🔄 Learning... 3 / 5".to_string()]);
    let done = Onboarding::flow(ResponseLanguage::Banglish, 5);
    assert_eq!(done[1], "✅ Full profile ready!");
    assert_eq!(done[0], "👋 Welcome! Ami KontroCode. Ki korbo bolen?");
}

#[test]
fn offline_needs_a_local_model() {
    assert!(OfflineMode { local_model: true }.can_work());
    assert!(!OfflineMode { local_model: false }.can_work());
}

#[test]
fn config_defaults() {
    let r = ResearchConfig::default();
    assert_eq!(r, ResearchConfig { cache_ttl_hours: 24, max_parallel: 5, include_stack_overflow: true, include_github: true });
    let u = UiConfig::default();
    assert_eq!(u.font_size_px, 13);
    assert!(u.agent_panel_visible && u.file_tree_visible && u.terminal_visible);
    assert_ne!(MemoryBackend::File, MemoryBackend::Redis);
    assert_ne!(RouterMode::Cost, RouterMode::Quality);
}

fn session(id: &str, text: &str, stack: Option<&str>, files: &[&str]) -> kontrocode::platform::SessionRecord {
    kontrocode::platform::SessionRecord {
        id: id.to_string(),
        timestamp: 0,
        messages: vec![kontrocode::platform::SessionMessage {
            role: "user".to_string(),
            content: text.to_string(),
            timestamp: 0,
        }],
        stack: stack.map(|s| s.to_string()),
        files_touched: files.iter().map(|f| f.to_string()).collect(),
        duration_secs: 1,
    }
}

#[test]
fn history_keeps_newest_first_within_limit() {
    let mut h = kontrocode::platform::SessionHistory::new();
    for i in 0..105 {
        h.add(session(&i.to_string(), "hello", None, &[]));
    }
    assert_eq!(h.len(), 100);
    let ids: Vec<String> = h.records().iter().map(|r| r.id.clone()).collect();
    assert_eq!(ids[0], "104");
    assert_eq!(ids[99], "5");
}

#[test]
fn history_search_ignores_case() {
    let mut h = kontrocode::platform::SessionHistory::new();
    h.add(session("a", "Fix the Flutter build", None, &[]));
    h.add(session("b", "nothing here", Some("Rust"), &[]));
    h.add(session("c", "misc", None, &["src/Main.rs"]));
    let ids = |q: &str| -> Vec<String> { h.search(q).iter().map(|r| r.id.clone()).collect() };
    assert_eq!(ids("flutter"), vec!["a".to_string()]);
    assert_eq!(ids("RUST"), vec!["b".to_string()]);
    assert_eq!(ids("main.rs"), vec!["c".to_string()]);
    assert!(ids("python").is_empty());
}
