use kontrocode::fallback::{route_start, route_step, Attempt, RouteAction, RouteNotice};

fn action_text(a: &RouteAction) -> String {
    match a {
        RouteAction::Check { index } => format!("check {index}"),
        RouteAction::Ask { index } => format!("ask {index}"),
        RouteAction::Return => "return".to_string(),
        RouteAction::GiveUp { error } => format!("give up: {error}"),
    }
}

fn notice_text(n: &RouteNotice) -> String {
    match n {
        RouteNotice::Selected { index } => format!("selected {index}"),
        RouteNotice::Fallback { from, to, reason } => format!("fallback {from}->{to}: {reason}"),
        RouteNotice::Exhausted { reason } => format!("exhausted: {reason}"),
    }
}

#[test]
fn fallback_walks_the_ranking_and_gives_up() {
    let (s, a, n) = route_start(3, 3);
    assert_eq!(action_text(&a), "check 0");
    assert!(n.is_empty());
    let (s, a, n) = route_step(3, 3, s, Attempt::Ready, "openai/gpt-4o", 300);
    assert_eq!(action_text(&a), "ask 0");
    assert_eq!(n.iter().map(notice_text).collect::<Vec<_>>(), vec!["selected 0"]);
    let (s, a, n) = route_step(3, 3, s, Attempt::Failed { error: "boom".to_string() }, "openai/gpt-4o", 300);
    assert_eq!(action_text(&a), "check 1");
    assert_eq!(n.iter().map(notice_text).collect::<Vec<_>>(), vec!["fallback 0->1: boom"]);
    let (s, a, n) = route_step(3, 3, s, Attempt::NoProvider, "groq/llama", 300);
    assert_eq!(action_text(&a), "check 2");
    assert!(n.is_empty());
    assert_eq!(s.last_error.as_deref(), Some("no provider for model groq/llama"));
    let (s, a, n) = route_step(3, 3, s, Attempt::Ready, "xai/grok", 300);
    assert_eq!(action_text(&a), "ask 2");
    assert!(n.is_empty());
    let (_, a, n) = route_step(3, 3, s, Attempt::TimedOut { provider: "xai".to_string() }, "xai/grok", 300);
    assert_eq!(action_text(&a), "give up: provider 'xai' error: timeout after 300ms");
    assert_eq!(
        n.iter().map(notice_text).collect::<Vec<_>>(),
        vec!["exhausted: provider 'xai' error: timeout after 300ms"]
    );
}

#[test]
fn fallback_limit_stops_early_and_answers_return() {
    let (s, _, _) = route_start(5, 1);
    let (_, a, n) = route_step(5, 1, s.clone(), Attempt::Unhealthy { provider: "p".to_string() }, "p/m", 300);
    assert_eq!(action_text(&a), "give up: provider 'p' error: provider reports unhealthy");
    assert_eq!(n.len(), 1);
    let (_, a, n) = route_step(5, 1, s.clone(), Attempt::TimedOut { provider: "p".to_string() }, "p/m", 300);
    assert_eq!(n.iter().map(notice_text).collect::<Vec<_>>()[0], "fallback 0->1: timeout after 300ms");
    assert_eq!(n.len(), 2);
    assert!(action_text(&a).starts_with("give up"));
    let (_, a, n) = route_step(5, 1, s, Attempt::Answered, "p/m", 300);
    assert_eq!(action_text(&a), "return");
    assert!(n.is_empty());
}

#[test]
fn routing_without_models_or_tries() {
    let (_, a, n) = route_start(0, 3);
    assert_eq!(action_text(&a), "give up: no models available — register a provider");
    assert!(n.is_empty());
    let (_, a, n) = route_start(2, 0);
    assert_eq!(action_text(&a), "give up: unknown");
    assert_eq!(n.iter().map(notice_text).collect::<Vec<_>>(), vec!["exhausted: unknown"]);
}
