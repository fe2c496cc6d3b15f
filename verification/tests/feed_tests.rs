use kontrocode::feed::{ResearchFeed, ResearchStatus};

#[test]
fn feed_renders_newest_first_with_totals() {
    let mut f = ResearchFeed::new();
    f.push("npm", ResearchStatus::Started, "querying");
    f.push("npm", ResearchStatus::Done(3), "ok");
    let out = f.render_with_elapsed(&[5, 1234]);
    let newest = "│ ✓(3)  1234ms npm          ok │\n";
    let oldest = "│ ▶     5ms npm          querying │\n";
    assert!(out.contains(newest));
    assert!(out.contains(oldest));
    assert!(out.find(newest).unwrap() < out.find(oldest).unwrap());
    assert!(out.starts_with("\n┌─ Research Feed"));
    assert!(out.ends_with("  2 sources | 1 done | 0 errors\n"));
}

#[test]
fn empty_feed_says_so() {
    let f = ResearchFeed::new();
    let out = f.render();
    assert!(out.contains("(no research yet)"));
    assert!(out.ends_with("  0 sources | 0 done | 0 errors\n"));
    assert_eq!(f.render_compact(), "Research: ");
}

#[test]
fn long_messages_are_cut() {
    let mut f = ResearchFeed::new();
    let msg = "a".repeat(45);
    f.push("docs", ResearchStatus::Error("boom".to_string()), &msg);
    let out = f.render_with_elapsed(&[0]);
    assert!(out.contains(&format!("{}... │", "a".repeat(37))));
    assert!(out.ends_with("  1 sources | 0 done | 1 errors\n"));
}

#[test]
fn only_ten_newest_events_are_shown() {
    let mut f = ResearchFeed::new();
    for i in 0..12 {
        f.push(&format!("s{i}"), ResearchStatus::Fetching, "m");
    }
    let ms: Vec<u128> = (0..12).collect();
    let out = f.render_with_elapsed(&ms);
    assert!(!out.contains("s0 "));
    assert!(!out.contains("s1 "));
    assert!(out.contains("s11"));
    assert!(out.ends_with("  12 sources | 0 done | 0 errors\n"));
}

#[test]
fn compact_rendering_joins_with_arrows() {
    let mut f = ResearchFeed::new();
    f.push("npm", ResearchStatus::Started, "");
    f.push("npm", ResearchStatus::Done(3), "");
    f.push("docs", ResearchStatus::Error("x".to_string()), "");
    f.push("cache", ResearchStatus::CacheHit, "");
    assert_eq!(f.render_compact(), "Research: npm:▶ → npm(3) → docs:✗ → cache:📦");
}

#[test]
fn status_symbols() {
    assert_eq!(ResearchStatus::Done(12).to_string(), "✓(12)");
    assert_eq!(ResearchStatus::CacheMiss.to_string(), "🌐");
    assert_eq!(ResearchStatus::Fetching.to_string(), "↓");
}

#[test]
fn push_records_events_in_order() {
    let mut f = ResearchFeed::new();
    f.push("a", ResearchStatus::Started, "one");
    f.push("b", ResearchStatus::Fetching, "two");
    let ev = f.events();
    assert_eq!(ev.len(), 2);
    assert_eq!(ev[0].source, "a");
    assert_eq!(ev[1].message, "two");
}

#[test]
fn null_source_supports_everything() {
    let s = kontrocode::research::NullSource;
    assert_eq!(s.id(), "null");
    assert!(s.supports(kontrocode::intent::Stack::Flutter));
    assert!(s.supports(kontrocode::intent::Stack::Unknown));
}

#[test]
fn accordion_labels_statuses() {
    assert_eq!(kontrocode::feed::ResearchStatus::Done(3).accordion_kind(), "complete");
    assert_eq!(kontrocode::feed::ResearchStatus::Error("x".to_string()).accordion_kind(), "error");
    assert_eq!(kontrocode::feed::ResearchStatus::CacheHit.accordion_kind(), "cached");
    assert_eq!(kontrocode::feed::ResearchStatus::CacheMiss.accordion_kind(), "fetching");
    assert_eq!(kontrocode::feed::ResearchStatus::Started.accordion_kind(), "fetching");
}
