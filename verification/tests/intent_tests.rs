use kontrocode::agent::{build_research_topic, research_stack, AgentConfig, CellStatus, RunAction, RunEvent, RunPhase};
use kontrocode::intent::{analyze, classify_task, detect_stacks, needs_research, summarize, Stack, TaskType};

#[test]
fn detect_flutter_stack() {
    let i = analyze("build me a Flutter auth screen with Google Sign-In");
    assert!(i.stacks.contains(&Stack::Flutter));
    assert_eq!(i.task_type, TaskType::Build);
    assert!(i.needs_research);
}

#[test]
fn unknown_stack_when_no_keywords() {
    let i = analyze("organize my files");
    assert_eq!(i.stacks, vec![Stack::Unknown]);
}

#[test]
fn debug_task_detected() {
    let i = analyze("fix the TypeError in my Python script");
    assert_eq!(i.task_type, TaskType::Debug);
    assert!(i.stacks.contains(&Stack::Python));
}

#[test]
fn refactor_task_detected() {
    let i = analyze("refactor this class to use composition");
    assert_eq!(i.task_type, TaskType::Refactor);
}

#[test]
fn lower_cased_prompt_parts_agree() {
    let lower = "build me a flutter auth screen with google sign-in";
    let stacks = detect_stacks(lower);
    assert_eq!(stacks, vec![Stack::Flutter]);
    assert_eq!(classify_task(lower), TaskType::Build);
    assert!(needs_research(lower, &stacks));
    assert!(analyze("Build me a Flutter app").has_stacks());
}

#[test]
fn stacks_come_sorted_and_once() {
    assert_eq!(
        detect_stacks("python api with node.js, react and python again"),
        vec![Stack::React, Stack::Node, Stack::Python]
    );
}

#[test]
fn stack_words_need_word_boundaries() {
    assert_eq!(detect_stacks("trusty golangish"), vec![Stack::Unknown]);
    assert_eq!(detect_stacks("use next.js"), vec![Stack::React]);
}

#[test]
fn stack_detect_ignores_ascii_case() {
    assert_eq!(Stack::detect("FastAPI"), Some(Stack::Python));
    assert_eq!(Stack::detect("cobol"), None);
    assert_eq!(Stack::Node.display_name(), "Node.js");
}

#[test]
fn unknown_stack_alone_needs_no_research() {
    assert!(!needs_research("organize my files", &[Stack::Unknown]));
    assert!(needs_research("what is the latest way", &[Stack::Unknown]));
}

#[test]
fn long_summary_is_cut_at_120_bytes() {
    let long = "x".repeat(130);
    let s = summarize(&format!("  {long}  "));
    assert_eq!(s, format!("{}…", "x".repeat(120)));
    assert_eq!(summarize("  short  "), "short");
}

#[test]
fn research_topic_falls_back_to_task_type() {
    assert_eq!(build_research_topic("", TaskType::Build), "best practices for Build");
    assert_eq!(build_research_topic("auth screen", TaskType::Build), "auth screen");
}

#[test]
fn research_stack_is_first_or_unknown() {
    assert_eq!(research_stack(&[]), Stack::Unknown);
    assert_eq!(research_stack(&[Stack::Go, Stack::Rust]), Stack::Go);
}

#[test]
fn agent_config_defaults() {
    let c = AgentConfig::new("/tmp/project".to_string());
    assert_eq!(c.project_root, "/tmp/project");
    assert_eq!(c.default_model.to_string(), "mock/echo");
    assert_eq!(c.max_self_corrections, 3);
    assert!(c.enable_research);
    assert!(c.should_research(true));
    assert!(!c.should_research(false));
    assert!(c.may_call_tools(2, 1));
    assert!(!c.may_call_tools(3, 1));
    assert!(!c.may_call_tools(0, 0));
}

#[test]
fn cell_status_symbols() {
    assert_eq!(CellStatus::Running.to_string(), "⚡");
    assert_eq!(CellStatus::Failed.to_string(), "❌");
}

#[test]
fn run_steps_through_research_model_and_tools() {
    let config = AgentConfig::new("/work".to_string());
    let (p, a) = config.step(RunPhase::Idle, RunEvent::Analyzed { needs_research: true });
    assert_eq!((p, a), (RunPhase::Researching, RunAction::Research));
    let (p, a) = config.step(p, RunEvent::Researched);
    assert_eq!((p, a), (RunPhase::Asking, RunAction::AskModel));
    let (p, a) = config.step(p, RunEvent::Replied { tool_calls: 2 });
    assert_eq!((p, a), (RunPhase::CallingTools { rounds: 1 }, RunAction::CallTools));
    let (p, a) = config.step(p, RunEvent::ToolsRan { pending: 1 });
    assert_eq!((p, a), (RunPhase::CallingTools { rounds: 2 }, RunAction::CallTools));
    let (p, a) = config.step(p, RunEvent::ToolsRan { pending: 1 });
    assert_eq!((p, a), (RunPhase::CallingTools { rounds: 3 }, RunAction::CallTools));
    let (p, a) = config.step(p, RunEvent::ToolsRan { pending: 1 });
    assert_eq!((p, a), (RunPhase::Finished, RunAction::Finish));
    assert_eq!(config.step(p, RunEvent::Researched), (RunPhase::Finished, RunAction::Wait));
}

#[test]
fn run_skips_research_and_tools_when_not_needed() {
    let mut config = AgentConfig::new("/work".to_string());
    config.enable_research = false;
    let (p, a) = config.step(RunPhase::Idle, RunEvent::Analyzed { needs_research: true });
    assert_eq!((p, a), (RunPhase::Asking, RunAction::AskModel));
    assert_eq!(config.step(p, RunEvent::Replied { tool_calls: 0 }), (RunPhase::Finished, RunAction::Finish));
}

#[test]
fn detecting_a_display_name_gives_the_stack_back() {
    let all = [
        Stack::Flutter,
        Stack::React,
        Stack::Vue,
        Stack::Svelte,
        Stack::Node,
        Stack::Python,
        Stack::Rust,
        Stack::Go,
        Stack::Swift,
        Stack::Kotlin,
    ];
    for s in all {
        assert_eq!(Stack::detect(s.display_name()), Some(s));
    }
    assert_eq!(Stack::Node.display_name(), "Node.js");
    assert_eq!(Stack::detect(Stack::Unknown.display_name()), None);
}
