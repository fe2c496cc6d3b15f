use kontrocode::profile::{FactView, PinnedContext};

fn fact(id: &str, text: &str) -> FactView {
    FactView { id: id.to_string(), confidence: "1.00".to_string(), text: text.to_string() }
}

#[test]
fn pins_render_as_a_block() {
    let mut p = PinnedContext::new();
    assert_eq!(p.to_prompt_injection(), "");
    p.pin(fact("a", "uses tabs")).unwrap();
    p.pin(fact("b", "likes Rust")).unwrap();
    assert_eq!(p.to_prompt_injection(), "<pinned_context>\n- uses tabs\n- likes Rust\n</pinned_context>\n");
}

#[test]
fn repinning_replaces_the_fact() {
    let mut p = PinnedContext::new();
    p.pin(fact("a", "old")).unwrap();
    p.pin(fact("b", "other")).unwrap();
    p.pin(fact("a", "new")).unwrap();
    let texts: Vec<&str> = p.list().iter().map(|f| f.text.as_str()).collect();
    assert_eq!(texts, vec!["other", "new"]);
}

#[test]
fn pins_are_limited_to_five() {
    let mut p = PinnedContext::new();
    for i in 0..5 {
        p.pin(fact(&format!("f{i}"), "x")).unwrap();
    }
    assert_eq!(p.pin(fact("f9", "y")), Err("Max 5 pinned facts".to_string()));
    assert_eq!(p.list().len(), 5);
    p.unpin("f0");
    assert_eq!(p.list().len(), 4);
    assert!(p.pin(fact("f9", "y")).is_ok());
}
