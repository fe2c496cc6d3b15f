use kontrocode::cache::{normalize, CacheKey, RedisResearchCache, DEFAULT_TTL};
use kontrocode::memory::{
    extract_fact_from_signal, extract_topic_from_error, lowered_texts_conflict, text_conflicts, ContradictionResolver,
    query_match, signal_effect, FactClaim, SignalKind, CompileFeedback, update_fact, delete_fact,
};
use kontrocode::profile::{parse_language, ColdStartHandler, FactSource, Language, ProfileShape};

#[test]
fn differing_preferences_conflict() {
    assert!(text_conflicts("I prefer tabs", "I prefer spaces"));
    assert!(!text_conflicts("I prefer tabs", "I Prefer TABS"));
    assert!(!text_conflicts("use rust", "avoid go"));
    assert!(lowered_texts_conflict("we use react", "we use vue"));
    assert!(!lowered_texts_conflict("hello", "world"));
}

#[test]
fn error_topics() {
    assert_eq!(extract_topic_from_error("flutter build failed"), "Flutter");
    assert_eq!(extract_topic_from_error("error in tokio runtime"), "Rust-Async");
    assert_eq!(extract_topic_from_error("react hook misuse"), "React");
    assert_eq!(extract_topic_from_error("segfault"), "Unknown");
}

struct Keys;
impl CacheKey for Keys {}

#[test]
fn key_is_deterministic_and_normalized() {
    let k1 = Keys.key("src", "stack", "Hello World!");
    let k2 = Keys.key("src", "stack", "hello world!");
    assert_eq!(k1, k2);
    assert!(k1.starts_with("research:src:stack:"));
    assert_eq!(k1, "research:src:stack:hello_world_");
    assert_eq!(normalize("Ünïcode-2"), "_n_code_2");
}

#[test]
fn cold_start_messages() {
    let empty = ProfileShape { facts: 0, stacks: 0, interests: 0 };
    assert!(ColdStartHandler::is_cold(&empty));
    assert!(ColdStartHandler::onboarding_message(&empty).unwrap().starts_with("👋 I'm KontroCode!"));
    let one = ProfileShape { facts: 1, stacks: 0, interests: 0 };
    assert_eq!(ColdStartHandler::onboarding_message(&one), Some("🔄 Still learning... 1 signals collected".to_string()));
    let ready = ProfileShape { facts: 2, stacks: 0, interests: 3 };
    assert!(ColdStartHandler::is_usable(&ready));
    assert_eq!(ColdStartHandler::onboarding_message(&ready), None);
}

#[test]
fn language_samples() {
    assert_eq!(parse_language("bengali"), Some(Language::Bengali));
    assert_eq!(parse_language("Bengali"), None);
}

#[test]
fn signals_teach_facts() {
    let f = extract_fact_from_signal(SignalKind::CodeBlockCopied, Some("Flutter"), None, None).unwrap();
    assert_eq!((f.text.as_str(), f.confidence_pct, f.source), ("copies code about Flutter", 70, FactSource::Implicit));
    let f = extract_fact_from_signal(SignalKind::LibraryReplaced, Some("State"), Some("Riverpod"), None).unwrap();
    assert_eq!((f.text.as_str(), f.confidence_pct), ("prefers Riverpod", 85));
    let f = extract_fact_from_signal(SignalKind::ExplicitStackMention, Some("Rust"), None, None).unwrap();
    assert_eq!((f.text.as_str(), f.confidence_pct, f.source), ("uses Rust", 95, FactSource::Explicit));
    let f = extract_fact_from_signal(SignalKind::RecurringError, None, None, Some("E0382")).unwrap();
    assert_eq!(f.text, "frequently encounters: E0382");
    assert!(extract_fact_from_signal(SignalKind::LibraryReplaced, Some("State"), None, None).is_none());
    assert!(extract_fact_from_signal(SignalKind::LongDwell, Some("x"), None, None).is_none());
}

fn claim(source: FactSource, text: &str) -> FactClaim {
    FactClaim { source, text: text.to_string() }
}

#[test]
fn first_conflict_skips_explicit_facts() {
    let existing = vec![
        claim(FactSource::Explicit, "I prefer spaces"),
        claim(FactSource::Implicit, "likes coffee"),
        claim(FactSource::Implicit, "I Prefer Spaces"),
        claim(FactSource::Implicit, "I prefer tabs"),
    ];
    assert_eq!(ContradictionResolver::first_conflict("I prefer spaces", &existing), Some(3));
    assert_eq!(ContradictionResolver::first_conflict("likes tea", &existing), None);
    assert_eq!(ContradictionResolver::first_conflict("I prefer spaces", &[]), None);
}

#[test]
fn settled_text_marks_the_outcome() {
    assert_eq!(
        ContradictionResolver::settled_text("I prefer tabs", "I prefer spaces", true),
        "I prefer tabs (overrides: I prefer spaces)"
    );
    assert_eq!(
        ContradictionResolver::settled_text("I prefer tabs", "I prefer spaces", false),
        "I prefer spaces (contested by: I prefer tabs)"
    );
}

#[test]
fn query_matches_whole_text_and_words() {
    assert_eq!(query_match("Prefers Riverpod for state", "riverpod"), (true, 1));
    assert_eq!(query_match("Prefers Riverpod for state", "state  riverpod"), (false, 2));
    assert_eq!(query_match("uses tokio", "async rust"), (false, 0));
    assert_eq!(query_match("anything", ""), (true, 0));
    assert_eq!(query_match("go go", "go go"), (true, 2));
}

#[test]
fn signals_name_their_effects() {
    let e = signal_effect(SignalKind::CodeBlockCopied, Some("Flutter"), None, None, None);
    assert_eq!(e.reinforce.as_deref(), Some("Flutter"));
    assert!(e.replace.is_none() && e.mention.is_none() && e.language.is_none());

    let e = signal_effect(SignalKind::LibraryReplaced, Some("provider"), Some("riverpod"), None, None);
    assert!(e.reinforce.is_none());
    assert_eq!(e.replace, Some(("provider (replaced)".to_string(), "riverpod".to_string())));

    let e = signal_effect(SignalKind::LibraryReplaced, None, Some("riverpod"), None, None);
    assert!(e.replace.is_none());

    let e = signal_effect(SignalKind::ExplicitStackMention, Some("Rust"), None, Some("Rust"), None);
    assert_eq!(e.reinforce.as_deref(), Some("Rust"));
    assert_eq!(e.mention.as_deref(), Some("Rust"));

    let e = signal_effect(SignalKind::LanguageSample, None, None, None, Some("banglish"));
    assert_eq!(e.language, Some(Language::Banglish));
    let e = signal_effect(SignalKind::LanguageSample, None, None, None, Some("klingon"));
    assert!(e.language.is_none());
    let e = signal_effect(SignalKind::SessionBoundary, Some("x"), Some("y"), Some("z"), Some("english"));
    assert!(e.reinforce.is_none() && e.replace.is_none() && e.mention.is_none() && e.language.is_none());
}

#[test]
fn redis_keys_join_prefix_and_parts() {
    let c = RedisResearchCache::new(DEFAULT_TTL);
    assert_eq!(c.full_key("npm", "Node", "react hooks"), "kontrocode:research:npm:Node:react hooks");
    assert_eq!(c.full_key("", "", ""), "kontrocode:research:::");
    assert_eq!(c.ttl_seconds(), 86_400);
}

#[test]
fn update_fact_modifies_in_place() {
    let mut facts = vec![("f1".to_string(), "old".to_string())];
    update_fact(&mut facts, "f1", "new".to_string()).unwrap();
    assert_eq!(facts[0].1, "new");
}

#[test]
fn delete_fact_removes() {
    let mut facts = vec![("f1".to_string(), "x".to_string())];
    delete_fact(&mut facts, "f1").unwrap();
    assert!(facts.is_empty());
}

#[test]
fn missing_fact_update_errors() {
    let mut facts: Vec<(String, String)> = Vec::new();
    let err = update_fact(&mut facts, "nope", "x".to_string());
    assert!(err.is_err());
}

#[test]
fn fact_updates_and_deletes_by_id() {
    let mut facts = vec![
        ("a".to_string(), 1),
        ("b".to_string(), 2),
        ("a".to_string(), 3),
        ("c".to_string(), 4),
    ];
    update_fact(&mut facts, "a", 10).unwrap();
    assert_eq!(facts, vec![("a".to_string(), 10), ("b".to_string(), 2), ("a".to_string(), 3), ("c".to_string(), 4)]);
    assert_eq!(update_fact(&mut facts, "z", 0), Err("fact z not found".to_string()));
    delete_fact(&mut facts, "a").unwrap();
    assert_eq!(facts, vec![("b".to_string(), 2), ("c".to_string(), 4)]);
    assert_eq!(delete_fact(&mut facts, "a"), Err("fact a not found".to_string()));
    assert_eq!(facts.len(), 2);
}

#[test]
fn compile_results_move_interest() {
    let up = CompileFeedback::record_success("Flutter");
    assert_eq!((up.topic.as_str(), up.hundredths), ("Flutter", 5));
    let down = CompileFeedback::record_failure("error: tokio runtime not found");
    assert_eq!((down.topic.as_str(), down.hundredths), ("Rust-Async", -3));
    assert_eq!(CompileFeedback::record_failure("segfault").topic, "Unknown");
}
