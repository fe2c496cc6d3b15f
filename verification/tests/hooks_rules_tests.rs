use kontrocode::hooks::{parse_blocked_tools, HookRunner};
use kontrocode::rules::{
    build_rules_prompt, Rule, RuleType, ALWAYS_CLOSE, ALWAYS_OPEN, REQUESTED_CLOSE, REQUESTED_INTRO,
    REQUESTED_OPEN, RULES_INTRO,
};

#[test]
fn blocked_tools_come_from_block_lines() {
    let cfg = "block = \"rm\"\nblock = shell_run, x\n# block = nope\nother\n";
    assert_eq!(parse_blocked_tools(cfg), vec!["rm".to_string(), "shell_run".to_string()]);
    let h = HookRunner::new("hooks".to_string(), Some(cfg));
    assert!(h.is_blocked("rm"));
    assert!(!h.is_blocked("ls"));
    assert_eq!(h.hooks_dir(), "hooks");
    let none = HookRunner::new("h".to_string(), None);
    assert!(!none.is_blocked("rm"));
}

#[test]
fn hook_calls_name_their_scripts() {
    let h = HookRunner::new("h".to_string(), None);
    let c = h.pre_shell("ls -la");
    assert_eq!((c.script.as_str(), c.tool.as_str(), c.args.as_str()), ("pre-shell.sh", "shell_run", "ls -la"));
    let t = h.post_tool("file_read", "{}");
    assert_eq!(t.script, "post-tool.sh");
    assert_eq!(h.pre_research().script, "pre-research.sh");
}

#[test]
fn rule_type_by_directory() {
    assert_eq!(RuleType::from_path(".kontrocode/rules/always/style.md"), RuleType::Always);
    assert_eq!(RuleType::from_path("rules/agent_requested/db.md"), RuleType::AgentRequested);
    assert_eq!(RuleType::from_path("notes.md"), RuleType::Manual);
    assert_eq!(RuleType::from_path("x/always/../y.md"), RuleType::Manual);
}

#[test]
fn rules_prompt_sections() {
    assert_eq!(build_rules_prompt(&[]), "");
    let rules = vec![
        Rule { path: "r/always/style.md".to_string(), content: "Use tabs".to_string(), rule_type: RuleType::Always },
        Rule { path: "r/agent_requested/db.md".to_string(), content: "Use Postgres\nmore".to_string(), rule_type: RuleType::AgentRequested },
        Rule { path: "r/manual/x.md".to_string(), content: "ignored".to_string(), rule_type: RuleType::Manual },
    ];
    let want = format!(
        "{RULES_INTRO}{ALWAYS_OPEN}Use tabs\n{ALWAYS_CLOSE}{REQUESTED_OPEN}{REQUESTED_INTRO}db: Use Postgres\n{REQUESTED_CLOSE}</rules>\n"
    );
    assert_eq!(build_rules_prompt(&rules), want);
}

#[test]
fn manual_rules_only_give_empty_block() {
    let rules = vec![Rule { path: "m.md".to_string(), content: "x".to_string(), rule_type: RuleType::Manual }];
    assert_eq!(build_rules_prompt(&rules), format!("{RULES_INTRO}</rules>\n"));
}

#[test]
fn every_hook_names_its_script() {
    let h = HookRunner::new("h".to_string(), None);
    let c = h.pre_tool("file_read", "a.txt");
    assert_eq!((c.script.as_str(), c.tool.as_str(), c.args.as_str()), ("pre-tool.sh", "file_read", "a.txt"));
    let c = h.post_tool("file_read", "a.txt");
    assert_eq!(c.script, "post-tool.sh");
    assert_eq!(h.pre_generate().script, "pre-generate.sh");
    assert_eq!(h.post_generate().script, "post-generate.sh");
    assert_eq!(h.pre_research().script, "pre-research.sh");
    let c = h.post_research();
    assert_eq!((c.script.as_str(), c.tool.as_str(), c.args.as_str()), ("post-research.sh", "", ""));
    let c = h.pre_shell("ls -la");
    assert_eq!((c.script.as_str(), c.tool.as_str(), c.args.as_str()), ("pre-shell.sh", "shell_run", "ls -la"));
}
