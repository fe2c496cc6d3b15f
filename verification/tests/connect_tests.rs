use kontrocode::connect::{AutoConnector, ToolProbes, ToolStatus};

fn nothing_found() -> ToolProbes {
    ToolProbes {
        ollama_list: None,
        opencode: false,
        gemini_cli: false,
        lmstudio: false,
        copilot_cli: false,
        continue_config: false,
        gpt4all: false,
    }
}

#[test]
fn scan_lists_seven_tools_in_order() {
    let c = AutoConnector::scan(&nothing_found());
    let names: Vec<&str> = c.tools.iter().map(|t| t.name.as_str()).collect();
    assert_eq!(
        names,
        vec!["Ollama", "OpenCode", "Gemini CLI", "LM Studio", "GitHub Copilot", "Continue.dev", "GPT4All"]
    );
    assert!(c.tools.iter().all(|t| matches!(t.status, ToolStatus::NotInstalled) && t.models.is_empty() && !t.one_click));
    assert_eq!(c.connected_count(), 0);
}

#[test]
fn ollama_models_come_from_its_listing() {
    let mut p = nothing_found();
    p.ollama_list = Some("NAME ID SIZE\nllama3:latest abc 4GB\n\n  mistral:7b def 4GB\n".to_string());
    p.lmstudio = true;
    let c = AutoConnector::scan(&p);
    assert!(matches!(c.tools[0].status, ToolStatus::Connected));
    assert_eq!(c.tools[0].models, vec!["llama3:latest".to_string(), "mistral:7b".to_string()]);
    assert_eq!(c.tools[0].endpoint, "http://localhost:11434/v1");
    assert_eq!(c.tools[3].models, vec!["local-model".to_string()]);
    assert_eq!(c.connected_count(), 2);
}

#[test]
fn one_click_page_lists_connected_then_missing() {
    let mut p = nothing_found();
    p.gemini_cli = true;
    let c = AutoConnector::scan(&p);
    let page = c.render_one_click();
    assert!(page.starts_with("## One-Click Connect\n\n### ✅ Connected\n- **Gemini CLI** → `gemini-cli` (gemini-2.5-flash)\n\n### 📦 Available (not installed)\n- Ollama — install to auto-connect\n"));
    assert!(page.ends_with("- GPT4All — install to auto-connect\n"));
    assert!(!page.contains("- Gemini CLI —"));
}

#[test]
fn one_click_page_without_missing_tools() {
    let p = ToolProbes {
        ollama_list: Some("NAME\n".to_string()),
        opencode: true,
        gemini_cli: true,
        lmstudio: true,
        copilot_cli: true,
        continue_config: true,
        gpt4all: true,
    };
    let c = AutoConnector::scan(&p);
    let page = c.render_one_click();
    assert!(page.contains("- **Ollama** → `sonic` (detected)\n"));
    assert!(!page.contains("Available (not installed)"));
    assert_eq!(c.connected_count(), 7);
}

#[test]
fn dashboard_rows_and_count() {
    let mut p = nothing_found();
    p.ollama_list = Some("NAME\na 1\nb 2\n".to_string());
    let c = AutoConnector::scan(&p);
    let d = c.render_dashboard();
    assert!(d.contains(&format!("│ ✅ {:<18} {:<12}         │\n", "Ollama", "2 models")));
    assert!(d.contains(&format!("│ ⬜ {:<18} {:<12}         │\n", "OpenCode", "none")));
    assert!(d.contains("│ Connected: 1/7 "));
    assert!(d.starts_with("\n┌─ Auto-Connect Dashboard"));
}

