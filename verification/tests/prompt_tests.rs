use kontrocode::profile::{render_memory, FactView, Language, ProfileView, ResponseStyle};
use kontrocode::prompt::{escape_xml, with_memory, SYSTEM_PROMPT};

#[test]
fn xml_escape_handles_specials() {
    assert_eq!(escape_xml("a<b>c&d"), "a&lt;b&gt;c&amp;d");
}

#[test]
fn xml_escape_quotes_and_existing_entities() {
    assert_eq!(escape_xml("\"x\" 'y' &lt;"), "&quot;x&quot; &apos;y&apos; &amp;lt;");
}

#[test]
fn system_prompt_is_substantial() {
    assert!(SYSTEM_PROMPT.len() > 1_000);
    assert!(SYSTEM_PROMPT.contains("RESEARCH BEFORE CODE"));
    assert!(SYSTEM_PROMPT.contains("ZERO DEPRECATED CODE"));
    assert!(SYSTEM_PROMPT.contains("MEMORY-FIRST"));
}

#[test]
fn prompt_with_memory_appends_block() {
    let p = with_memory("<memory/>");
    assert!(p.starts_with(SYSTEM_PROMPT));
    assert!(p.ends_with("<memory/>\n"));
    assert!(p.contains("CURRENT USER PROFILE"));
}

fn default_view() -> ProfileView {
    ProfileView {
        summary: String::new(),
        facts: Vec::new(),
        response_style: ResponseStyle::Balanced,
        language: Language::English,
        expertise_level: "0.50".to_string(),
    }
}

#[test]
fn render_memory_produces_well_formed_xml() {
    let s = render_memory(&default_view());
    assert!(s.starts_with("<memory>"));
    assert!(s.ends_with("</memory>"));
    assert!(s.contains("<preferences>"));
}

#[test]
fn render_memory_exact_block() {
    let mut v = default_view();
    v.summary = "likes <Rust>".to_string();
    v.facts.push(FactView { id: "f1".to_string(), confidence: "0.90".to_string(), text: "uses tabs & spaces".to_string() });
    let s = render_memory(&v);
    assert_eq!(
        s,
        "<memory>\n  <profile_summary>likes &lt;Rust&gt;</profile_summary>\n  <relevant_facts>\n    <fact id=\"f1\" confidence=\"0.90\">uses tabs &amp; spaces</fact>\n  </relevant_facts>\n  <preferences>\n    <response_style>Balanced</response_style>\n    <language>English</language>\n    <expertise_level>0.50</expertise_level>\n  </preferences>\n</memory>"
    );
}

#[test]
fn render_memory_shows_five_facts_at_most() {
    let mut v = default_view();
    for i in 0..7 {
        v.facts.push(FactView { id: format!("f{i}"), confidence: "1.00".to_string(), text: format!("fact {i}") });
    }
    let s = render_memory(&v);
    assert_eq!(s.matches("<fact ").count(), 5);
    assert!(s.contains("fact 4"));
    assert!(!s.contains("fact 5"));
}

#[test]
fn a_run_opens_with_memory_then_the_message() {
    let view = default_view();
    let turns = kontrocode::agent::opening_turns(&view, "add a login screen");
    assert_eq!(turns.len(), 2);
    assert!(matches!(turns[0].role, kontrocode::provider::Role::System));
    assert_eq!(turns[0].content, kontrocode::prompt::with_memory(&render_memory(&view)));
    assert!(turns[0].content.contains("<memory>"));
    assert!(matches!(turns[1].role, kontrocode::provider::Role::User));
    assert_eq!(turns[1].content, "add a login screen");
}
