use kontrocode::profile::PinnedContext;
use kontrocode::versioner::{clock_text, memory_panel_render, PanelFact, ProfileVersioner};

#[test]
fn clock_is_utc_hours_and_minutes() {
    assert_eq!(clock_text(0), "00:00");
    assert_eq!(clock_text(3_723_000), "01:02");
    assert_eq!(clock_text(86_399_999), "23:59");
    assert_eq!(clock_text(-60_000), "23:59");
    assert_eq!(clock_text(1_700_000_000_000), "22:13");
}

#[test]
fn versions_are_numbered_and_bounded() {
    let mut v = ProfileVersioner::new("/tmp/profiles");
    assert_eq!(v.save_version("{}".to_string(), "created"), 1);
    assert_eq!(v.save_version("{}".to_string(), "fact added"), 2);
    let trail = v.audit_trail(1);
    assert!(trail.starts_with("v2 ["));
    assert!(trail.ends_with("] fact added"));
    assert_eq!(v.audit_trail(5).lines().count(), 2);
    for _ in 2..50 {
        v.save_version("{}".to_string(), "edit");
    }
    assert_eq!(v.save_version("{}".to_string(), "edit"), 51);
    assert_eq!(v.save_version("{}".to_string(), "edit"), 51);
    assert_eq!(v.audit_trail(100).lines().count(), 50);
}

#[test]
fn memory_panel_lists_five_facts() {
    let facts: Vec<PanelFact> = (0..7)
        .map(|i| PanelFact { confidence_pct: 10 * i, text: format!("fact {i}") })
        .collect();
    let pins = PinnedContext::new();
    let v = ProfileVersioner::new("/tmp/profiles");
    let panel = memory_panel_render(&facts, 2, 3, &pins, &v);
    assert!(panel.starts_with("\n┌─ Memory Panel "));
    assert!(panel.contains("│ Facts: 7 | Stacks: 2 | Interests: 3       │\n"));
    assert!(panel.contains("│ Pinned: 0 "));
    assert!(panel.contains("│ [40%] fact 4 │\n"));
    assert!(!panel.contains("fact 5"));
    assert!(panel.contains("│ ... and 2 more facts "));
    assert!(panel.ends_with("│ Audit trail:                                  │\n└─────────────────────────────────────────────────┘\n"));
}

#[test]
fn memory_panel_clips_long_facts() {
    let long = "x".repeat(60);
    let facts = vec![PanelFact { confidence_pct: 95, text: long }];
    let panel = memory_panel_render(&facts, 0, 0, &PinnedContext::new(), &ProfileVersioner::new("/p"));
    assert!(panel.contains(&format!("│ [95%] {} │\n", "x".repeat(45))));
}
