use kontrocode::router::{chunk_string, deepseek_model_map, estimate_str_tokens, identity_model, TaskComplexity};

#[test]
fn chunks_cover_the_text() {
    assert_eq!(chunk_string("abcdefg", 3), vec!["abc", "def", "g"]);
    assert_eq!(chunk_string("abcdef", 3), vec!["abc", "def"]);
    assert_eq!(chunk_string("", 12), vec![""]);
    assert_eq!(chunk_string("ab", 0), vec!["a", "b"]);
    assert_eq!(chunk_string("ééé", 2), vec!["éé", "é"]);
}

#[test]
fn chunks_put_back_together() {
    let s = "The quick brown fox jumps over the lazy dog";
    assert_eq!(chunk_string(s, 12).concat(), s);
}

#[test]
fn token_estimate_is_quarter_length_plus_four() {
    assert_eq!(estimate_str_tokens("hello world!"), 7);
    assert_eq!(estimate_str_tokens(""), 4);
    assert_eq!(estimate_str_tokens("é"), 4);
}

#[test]
fn model_name_maps() {
    assert_eq!(identity_model("gpt-4o"), "gpt-4o");
    assert_eq!(deepseek_model_map("r1"), "deepseek-reasoner");
    assert_eq!(deepseek_model_map("v3"), "deepseek-chat");
}

#[test]
fn complexity_levels_are_ordered() {
    assert!(TaskComplexity::Trivial < TaskComplexity::Routine);
    assert!(TaskComplexity::Complex < TaskComplexity::Expert);
}

#[test]
fn conversation_tokens_add_up() {
    let turns = vec![
        kontrocode::provider::Turn { role: kontrocode::provider::Role::System, content: "12345678".to_string() },
        kontrocode::provider::Turn { role: kontrocode::provider::Role::User, content: String::new() },
    ];
    assert_eq!(kontrocode::router::estimate_tokens(&turns), 6 + 4);
    assert_eq!(kontrocode::router::estimate_tokens(&[]), 0);
}
