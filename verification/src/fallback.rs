//! The router's fallback chain: which ranked model to try next, what to
//! report on the way, and when to give up.
use vstd::prelude::*;

use crate::text::{decimal, decimal_string, push_str, to_owned};

verus! {

/// What happened at the current position of the ranking.
#[derive(Debug, Clone)]
pub enum Attempt {
    /// No registered provider serves the model.
    NoProvider,
    /// The model's provider reports itself unhealthy.
    Unhealthy { provider: String },
    /// The model's provider is found and healthy: it is about to be asked.
    Ready,
    /// The model answered.
    Answered,
    /// The model failed; the error as its caller writes it.
    Failed { error: String },
    /// The model's provider gave no answer in time.
    TimedOut { provider: String },
}

/// What the router does next.
#[derive(Debug, Clone)]
pub enum RouteAction {
    /// Look up and check the provider of the model at this position.
    Check { index: usize },
    /// Ask the model at this position.
    Ask { index: usize },
    /// Hand back the answer.
    Return,
    /// Give up with this error.
    GiveUp { error: String },
}

/// What the router reports while it works.
#[derive(Debug, Clone)]
pub enum RouteNotice {
    /// The best ranked model is being asked.
    Selected { index: usize },
    /// A model failed; the next ranked one follows.
    Fallback { from: usize, to: usize, reason: String },
    /// Every model tried failed; the last error.
    Exhausted { reason: String },
}

/// Where a routed request stands.
#[derive(Debug, Clone)]
pub struct RouteState {
    /// The position being tried.
    pub index: usize,
    /// The last error met, if any.
    pub last_error: Option<String>,
}

/// How many ranked models may be tried.
pub open spec fn tries(ranked: nat, limit: nat) -> nat {
    if ranked < limit {
        ranked
    } else {
        limit
    }
}

/// The error an attempt leaves behind, if it failed.
pub open spec fn attempt_error(a: Attempt, model: Seq<char>, timeout_ms: nat) -> Option<Seq<char>> {
    match a {
        Attempt::NoProvider => Some("no provider for model "@ + model),
        Attempt::Unhealthy { provider } => Some(
            "provider '"@ + provider@ + "' error: provider reports unhealthy"@,
        ),
        Attempt::Failed { error } => Some(error@),
        Attempt::TimedOut { provider } => Some(
            "provider '"@ + provider@ + "' error: timeout after "@ + decimal(timeout_ms) + "ms"@,
        ),
        _ => None,
    }
}

/// Why the router moves on from a model that was asked, if it does.
pub open spec fn fallback_reason(a: Attempt, timeout_ms: nat) -> Option<Seq<char>> {
    match a {
        Attempt::Failed { error } => Some(error@),
        Attempt::TimedOut { .. } => Some("timeout after "@ + decimal(timeout_ms) + "ms"@),
        _ => None,
    }
}

/// The error of a request with no model to route to.
pub open spec fn no_models_error() -> Seq<char> {
    "no models available — register a provider"@
}

/// Whether an action checks the model at position `i`.
pub open spec fn checks(a: RouteAction, i: int) -> bool {
    a matches RouteAction::Check { index } && index == i
}

/// Whether an action asks the model at position `i`.
pub open spec fn asks(a: RouteAction, i: int) -> bool {
    a matches RouteAction::Ask { index } && index == i
}

/// Whether an action gives up with error `e`.
pub open spec fn gives_up(a: RouteAction, e: Seq<char>) -> bool {
    a matches RouteAction::GiveUp { error } && error@ == e
}

/// Whether a notice reports the selection of the model at position `i`.
pub open spec fn selects(n: RouteNotice, i: int) -> bool {
    n matches RouteNotice::Selected { index } && index == i
}

/// Whether a notice reports a fallback between two positions for a
/// reason.
pub open spec fn falls_back(n: RouteNotice, from: int, to: int, why: Seq<char>) -> bool {
    n matches RouteNotice::Fallback { from: f, to: t, reason } && f == from && t == to && reason@ == why
}

/// Whether a notice reports giving up for a reason.
pub open spec fn exhausts(n: RouteNotice, why: Seq<char>) -> bool {
    n matches RouteNotice::Exhausted { reason } && reason@ == why
}

/// Start routing over `ranked` models, trying at most `limit`.
pub fn route_start(ranked: usize, limit: usize) -> (r: (RouteState, RouteAction, Vec<RouteNotice>))
    ensures
        r.0.index == 0,
        r.0.last_error is None,
        ranked == 0 ==> gives_up(r.1, no_models_error()) && r.2@.len() == 0,
        ranked > 0 && limit > 0 ==> checks(r.1, 0) && r.2@.len() == 0,
        ranked > 0 && limit == 0 ==> gives_up(r.1, "unknown"@) && r.2@.len() == 1 && exhausts(
            r.2@[0],
            "unknown"@,
        ),
{
    let state = RouteState { index: 0, last_error: None };
    if ranked == 0 {
        (state, RouteAction::GiveUp { error: to_owned("no models available — register a provider") }, Vec::new())
    } else if limit > 0 {
        (state, RouteAction::Check { index: 0 }, Vec::new())
    } else {
        let mut notices: Vec<RouteNotice> = Vec::new();
        notices.push(RouteNotice::Exhausted { reason: to_owned("unknown") });
        (state, RouteAction::GiveUp { error: to_owned("unknown") }, notices)
    }
}

/// The error an attempt leaves behind.
fn attempt_error_text(a: &Attempt, model: &str, timeout_ms: u128) -> (r: Option<String>)
    ensures
        match attempt_error(*a, model@, timeout_ms as nat) {
            Some(t) => r matches Some(s) && s@ == t,
            None => r is None,
        },
{
    match a {
        Attempt::NoProvider => {
            let mut s = to_owned("no provider for model ");
            push_str(&mut s, model);
            Some(s)
        },
        Attempt::Unhealthy { provider } => {
            let mut s = to_owned("provider '");
            push_str(&mut s, provider.as_str());
            push_str(&mut s, "' error: provider reports unhealthy");
            Some(s)
        },
        Attempt::Failed { error } => Some(to_owned(error.as_str())),
        Attempt::TimedOut { provider } => {
            let mut s = to_owned("provider '");
            push_str(&mut s, provider.as_str());
            push_str(&mut s, "' error: timeout after ");
            push_str(&mut s, decimal_string(timeout_ms).as_str());
            push_str(&mut s, "ms");
            Some(s)
        },
        _ => None,
    }
}

/// The next step of routing after what happened at the current
/// position, given the number of ranked models, how many may be tried,
/// the model's id and the time limit of one attempt.
pub fn route_step(
    ranked: usize,
    limit: usize,
    state: RouteState,
    attempt: Attempt,
    model: &str,
    timeout_ms: u128,
) -> (r: (RouteState, RouteAction, Vec<RouteNotice>))
    requires
        state.index < tries(ranked as nat, limit as nat),
    ensures
        r.0.index < tries(ranked as nat, limit as nat),
        r.1 matches RouteAction::Check { index } ==> index == r.0.index,
        r.1 matches RouteAction::Ask { index } ==> index == r.0.index,
        attempt matches Attempt::Ready ==> {
            &&& r.0.index == state.index
            &&& r.0.last_error == state.last_error
            &&& asks(r.1, state.index as int)
            &&& r.2@.len() == (if state.index == 0 { 1int } else { 0int })
            &&& state.index == 0 ==> selects(r.2@[0], 0)
        },
        attempt matches Attempt::Answered ==> {
            &&& r.0.index == state.index
            &&& r.0.last_error == state.last_error
            &&& r.1 matches RouteAction::Return
            &&& r.2@.len() == 0
        },
        attempt_error(attempt, model@, timeout_ms as nat) matches Some(err) ==> {
            let moved = fallback_reason(attempt, timeout_ms as nat) is Some && state.index + 1 < ranked;
            let last = state.index + 1 >= tries(ranked as nat, limit as nat);
            &&& r.0.last_error matches Some(e) && e@ == err
            &&& r.2@.len() == (if moved { 1int } else { 0int }) + (if last { 1int } else { 0int })
            &&& moved ==> falls_back(
                r.2@[0],
                state.index as int,
                state.index + 1,
                fallback_reason(attempt, timeout_ms as nat)->0,
            )
            &&& !last ==> r.0.index == state.index + 1 && checks(r.1, state.index + 1)
            &&& last ==> r.0.index == state.index && gives_up(r.1, err) && exhausts(r.2@.last(), err)
        },
{
    let i = state.index;
    match attempt {
        Attempt::Ready => {
            let mut notices: Vec<RouteNotice> = Vec::new();
            if i == 0 {
                notices.push(RouteNotice::Selected { index: 0 });
            }
            return (state, RouteAction::Ask { index: i }, notices);
        },
        Attempt::Answered => {
            return (state, RouteAction::Return, Vec::new());
        },
        _ => {},
    }
    let err = match attempt_error_text(&attempt, model, timeout_ms) {
        Some(e) => e,
        None => {
            return (state, RouteAction::Return, Vec::new());
        },
    };
    let mut notices: Vec<RouteNotice> = Vec::new();
    if i + 1 < ranked {
        match &attempt {
            Attempt::Failed { error } => {
                notices.push(
                    RouteNotice::Fallback { from: i, to: i + 1, reason: to_owned(error.as_str()) },
                );
            },
            Attempt::TimedOut { .. } => {
                let mut reason = to_owned("timeout after ");
                push_str(&mut reason, decimal_string(timeout_ms).as_str());
                push_str(&mut reason, "ms");
                notices.push(RouteNotice::Fallback { from: i, to: i + 1, reason });
            },
            _ => {},
        }
    }
    let n = if ranked < limit {
        ranked
    } else {
        limit
    };
    if i + 1 < n {
        (RouteState { index: i + 1, last_error: Some(err) }, RouteAction::Check { index: i + 1 }, notices)
    } else {
        notices.push(RouteNotice::Exhausted { reason: to_owned(err.as_str()) });
        let give_up = RouteAction::GiveUp { error: to_owned(err.as_str()) };
        (RouteState { index: i, last_error: Some(err) }, give_up, notices)
    }
}

} // verus!
