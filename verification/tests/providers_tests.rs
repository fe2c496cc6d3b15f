use kontrocode::provider::ModelId;
use kontrocode::providers::{str_less_exec, ProviderRegistry};

#[test]
fn register_and_lookup() {
    let mut r = ProviderRegistry::new();
    r.register("mock".to_string(), "mock provider");
    assert_eq!(r.ids(), vec!["mock"]);
    assert!(r.get("mock").is_some());
    assert!(r.get("missing").is_none());
}

#[test]
fn registering_again_replaces_and_ids_come_sorted() {
    let mut r = ProviderRegistry::new();
    assert!(r.is_empty());
    r.register("openai".to_string(), 1);
    r.register("deepseek".to_string(), 2);
    r.register("groq".to_string(), 3);
    r.register("deepseek".to_string(), 4);
    assert_eq!(r.ids(), vec!["deepseek", "groq", "openai"]);
    assert_eq!(r.len(), 3);
    assert_eq!(r.get("deepseek"), Some(&4));
    assert_eq!(r.provider_for(&ModelId::new("groq", "llama-3.3-70b")), Some(&3));
    assert_eq!(r.provider_for(&ModelId::from_str("local")), None);
}

#[test]
fn text_order_is_that_of_str() {
    assert!(str_less_exec("abc", "abd"));
    assert!(str_less_exec("ab", "abc"));
    assert!(!str_less_exec("abc", "ab"));
    assert!(!str_less_exec("same", "same"));
    assert!(str_less_exec("", "a"));
    assert!(str_less_exec("Zeta", "alpha"));
}
