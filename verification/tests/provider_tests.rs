use kontrocode::provider::{parse_finish_reason, synthesize, wire_role, FinishReason, ModelId, Role, Turn};
use kontrocode::research::{ResearchRunnerConfig, ResearchSource};
use kontrocode::intent::Stack;

#[test]
fn model_id_splits_correctly() {
    let m = ModelId::new("deepseek", "deepseek-chat");
    assert_eq!(m.provider(), "deepseek");
    assert_eq!(m.model(), "deepseek-chat");
    assert_eq!(m.to_string(), "deepseek/deepseek-chat");
}

#[test]
fn model_id_without_slash() {
    let m = ModelId::from_str("local");
    assert_eq!(m.provider(), "");
    assert_eq!(m.model(), "local");
}

#[test]
fn model_id_splits_at_first_slash() {
    let m = ModelId::from_str("openrouter/meta/llama");
    assert_eq!(m.provider(), "openrouter");
    assert_eq!(m.model(), "meta/llama");
}

#[test]
fn pub_dev_supports_flutter_only() {
    assert!(ResearchSource::PubDev.supports(Stack::Flutter));
    assert!(!ResearchSource::PubDev.supports(Stack::Node));
}

#[test]
fn npm_supports_node_family() {
    for s in [Stack::Node, Stack::React, Stack::Vue, Stack::Svelte] {
        assert!(ResearchSource::Npm.supports(s), "npm should support {s:?}");
    }
    assert!(!ResearchSource::Npm.supports(Stack::Python));
}

#[test]
fn source_ids_are_stable() {
    assert_eq!(ResearchSource::CratesIo.id(), "crates.io");
    assert_eq!(ResearchSource::StackOverflow.id(), "stackoverflow");
}

#[test]
fn runner_skips_disabled_and_unsupported_sources() {
    let mut c = ResearchRunnerConfig::default();
    assert!(c.include_stack_overflow && c.include_github);
    c.include_github = false;
    let all = [
        ResearchSource::OfficialDocs,
        ResearchSource::PubDev,
        ResearchSource::Npm,
        ResearchSource::CratesIo,
        ResearchSource::Github,
        ResearchSource::StackOverflow,
    ];
    assert_eq!(
        c.applicable(&all, Stack::Rust),
        vec![ResearchSource::OfficialDocs, ResearchSource::CratesIo, ResearchSource::StackOverflow]
    );
    assert!(!c.enables("github"));
    assert!(c.enables("npm"));
}

#[test]
fn wire_roles_and_finish_reasons() {
    assert_eq!(wire_role(Role::System), "system");
    assert_eq!(wire_role(Role::Assistant), "assistant");
    assert_eq!(wire_role(Role::Tool), "user");
    assert_eq!(parse_finish_reason(Some("length")), FinishReason::Length);
    assert_eq!(parse_finish_reason(Some("tool_calls")), FinishReason::ToolCalls);
    assert_eq!(parse_finish_reason(Some("content_filter")), FinishReason::Stop);
    assert_eq!(parse_finish_reason(None), FinishReason::Stop);
}

#[test]
fn offline_reply_echoes_last_user_message() {
    let turns = vec![
        Turn { role: Role::System, content: "sys".to_string() },
        Turn { role: Role::User, content: "hello there".to_string() },
        Turn { role: Role::Assistant, content: "hi".to_string() },
    ];
    let r = synthesize(&turns, &Vec::new());
    assert_eq!(
        r,
        "[mock response]\n\nYou said: \"hello there\"\n\nThis is the offline mock provider. Connect a real LLM in Phase 2."
    );
    let tools = vec!["file_read".to_string(), "shell_run".to_string()];
    let r = synthesize(&turns[..1], &tools);
    assert_eq!(
        r,
        "[mock] I would normally use one of file_read, shell_run to help with: (no user message)\n\n(Configure a real provider in `~/.config/kontrocode/config.toml`.)"
    );
}
