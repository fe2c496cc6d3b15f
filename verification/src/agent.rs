//! The agent's settings and the decisions of a run that do not wait on
//! anything: whether to research, on which stack and topic, and the
//! state of the multi-agent grid.
use vstd::prelude::*;

use crate::intent::{Stack, TaskType};
use crate::profile::{memory_block, render_memory, ProfileView};
use crate::prompt::{prompt_with_memory, with_memory};
use crate::provider::{ModelId, Role, Turn};
use crate::text::{push_str, to_owned};

verus! {

/// How the agent runs.
#[derive(Debug, Clone)]
pub struct AgentConfig {
    /// The project root; file tools resolve paths against it.
    pub project_root: String,
    /// The model used when the router picks none.
    pub default_model: ModelId,
    /// How many rounds of tool calls a run may make.
    pub max_self_corrections: u32,
    /// Whether to research before generating.
    pub enable_research: bool,
}

impl AgentConfig {
    /// The default settings for a project root: the mock echo model,
    /// three rounds of tool calls, research on.
    pub fn new(project_root: String) -> (r: Self)
        ensures
            r.project_root@ == project_root@,
            r.default_model.0@ == "mock/echo"@,
            r.max_self_corrections == 3,
            r.enable_research,
    {
        let m = ModelId::new("mock", "echo");
        proof {
            reveal_strlit("mock");
            reveal_strlit("echo");
            reveal_strlit("mock/echo");
            assert(m.0@ =~= "mock/echo"@);
        }
        AgentConfig {
            project_root,
            default_model: m,
            max_self_corrections: 3,
            enable_research: true,
        }
    }

    /// Whether a run researches first: when research is on and the
    /// request needs it.
    pub fn should_research(&self, needs_research: bool) -> (r: bool)
        ensures
            r == (self.enable_research && needs_research),
    {
        self.enable_research && needs_research
    }

    /// Whether another round of tool calls may run after `attempts`
    /// rounds, with `pending` calls waiting.
    pub fn may_call_tools(&self, attempts: u32, pending: usize) -> (r: bool)
        ensures
            r == (pending > 0 && attempts < self.max_self_corrections),
    {
        pending > 0 && attempts < self.max_self_corrections
    }
}

/// The name of a task type.
pub open spec fn task_type_name(t: TaskType) -> Seq<char> {
    match t {
        TaskType::Build => "Build"@,
        TaskType::Modify => "Modify"@,
        TaskType::Refactor => "Refactor"@,
        TaskType::Debug => "Debug"@,
        TaskType::Explain => "Explain"@,
        TaskType::Test => "Test"@,
        TaskType::Shell => "Shell"@,
        TaskType::Other => "Other"@,
    }
}

/// The research topic of a request: its summary, or best practices for
/// its kind of task when the summary is empty.
pub open spec fn research_topic(summary: Seq<char>, t: TaskType) -> Seq<char> {
    if summary.len() == 0 {
        "best practices for "@ + task_type_name(t)
    } else {
        summary
    }
}

/// The research topic of a request.
pub fn build_research_topic(summary: &str, task_type: TaskType) -> (r: String)
    ensures
        r@ == research_topic(summary@, task_type),
{
    if summary.unicode_len() == 0 {
        let mut s = to_owned("best practices for ");
        let name = match task_type {
            TaskType::Build => "Build",
            TaskType::Modify => "Modify",
            TaskType::Refactor => "Refactor",
            TaskType::Debug => "Debug",
            TaskType::Explain => "Explain",
            TaskType::Test => "Test",
            TaskType::Shell => "Shell",
            TaskType::Other => "Other",
        };
        push_str(&mut s, name);
        s
    } else {
        to_owned(summary)
    }
}

/// The stack a run researches: the first detected one, or `Unknown`.
pub fn research_stack(stacks: &[Stack]) -> (r: Stack)
    ensures
        r == (if stacks@.len() > 0 {
            stacks@[0]
        } else {
            Stack::Unknown
        }),
{
    if stacks.len() > 0 {
        stacks[0]
    } else {
        Stack::Unknown
    }
}

/// The state of an agent in the multi-agent grid.
#[derive(Debug, Clone, Copy, PartialEq, Eq, Structural)]
pub enum CellStatus {
    Queued,
    Running,
    Completed,
    Failed,
}

/// The symbol of a grid state.
pub open spec fn cell_symbol(s: CellStatus) -> Seq<char> {
    match s {
        CellStatus::Queued => "⏳"@,
        CellStatus::Running => "⚡"@,
        CellStatus::Completed => "✅"@,
        CellStatus::Failed => "❌"@,
    }
}

impl CellStatus {
    /// The symbol of the state.
    pub fn to_string(&self) -> (r: String)
        ensures
            r@ == cell_symbol(*self),
    {
        match self {
            CellStatus::Queued => to_owned("⏳"),
            CellStatus::Running => to_owned("⚡"),
            CellStatus::Completed => to_owned("✅"),
            CellStatus::Failed => to_owned("❌"),
        }
    }
}


/// Where a run stands.
#[derive(Debug, Clone, Copy, PartialEq, Eq, Structural)]
pub enum RunPhase {
    /// Not started.
    Idle,
    /// Researching before the model is asked.
    Researching,
    /// Waiting for the model's reply.
    Asking,
    /// Running a round of tool calls; `rounds` rounds have started.
    CallingTools { rounds: u32 },
    /// Done.
    Finished,
}

/// What happened during a run.
#[derive(Debug, Clone, Copy, PartialEq, Eq, Structural)]
pub enum RunEvent {
    /// The request was analyzed; it may need research.
    Analyzed { needs_research: bool },
    /// Research ended, whatever it found.
    Researched,
    /// The model replied, asking for this many tool calls.
    Replied { tool_calls: usize },
    /// A round of tool calls ran; this many calls still wait.
    ToolsRan { pending: usize },
}

/// What a run does next.
#[derive(Debug, Clone, Copy, PartialEq, Eq, Structural)]
pub enum RunAction {
    /// Research the request.
    Research,
    /// Ask the model.
    AskModel,
    /// Run the waiting tool calls.
    CallTools,
    /// Report the reply and stop.
    Finish,
    /// Nothing: the event does not belong to this phase.
    Wait,
}

/// The next phase and action of a run, given its settings, its phase and
/// what happened.
pub open spec fn run_step(
    research_on: bool,
    max_rounds: u32,
    phase: RunPhase,
    event: RunEvent,
) -> (RunPhase, RunAction) {
    match (phase, event) {
        (RunPhase::Idle, RunEvent::Analyzed { needs_research }) => if research_on && needs_research {
            (RunPhase::Researching, RunAction::Research)
        } else {
            (RunPhase::Asking, RunAction::AskModel)
        },
        (RunPhase::Researching, RunEvent::Researched) => (RunPhase::Asking, RunAction::AskModel),
        (RunPhase::Asking, RunEvent::Replied { tool_calls }) => if tool_calls > 0 && 0 < max_rounds {
            (RunPhase::CallingTools { rounds: 1 }, RunAction::CallTools)
        } else {
            (RunPhase::Finished, RunAction::Finish)
        },
        (RunPhase::CallingTools { rounds }, RunEvent::ToolsRan { pending }) => if pending > 0 && rounds
            < max_rounds {
            (RunPhase::CallingTools { rounds: (rounds + 1) as u32 }, RunAction::CallTools)
        } else {
            (RunPhase::Finished, RunAction::Finish)
        },
        _ => (phase, RunAction::Wait),
    }
}

/// A phase a run can be in: rounds of tool calls only within the limit.
pub open spec fn phase_within_limit(max_rounds: u32, phase: RunPhase) -> bool {
    match phase {
        RunPhase::CallingTools { rounds } => 1 <= rounds <= max_rounds,
        _ => true,
    }
}

impl AgentConfig {
    /// The next phase of a run and what it does, given what happened.
    pub fn step(&self, phase: RunPhase, event: RunEvent) -> (r: (RunPhase, RunAction))
        ensures
            r == run_step(self.enable_research, self.max_self_corrections, phase, event),
    {
        match (phase, event) {
            (RunPhase::Idle, RunEvent::Analyzed { needs_research }) => {
                if self.should_research(needs_research) {
                    (RunPhase::Researching, RunAction::Research)
                } else {
                    (RunPhase::Asking, RunAction::AskModel)
                }
            },
            (RunPhase::Researching, RunEvent::Researched) => (RunPhase::Asking, RunAction::AskModel),
            (RunPhase::Asking, RunEvent::Replied { tool_calls }) => {
                if self.may_call_tools(0, tool_calls) {
                    (RunPhase::CallingTools { rounds: 1 }, RunAction::CallTools)
                } else {
                    (RunPhase::Finished, RunAction::Finish)
                }
            },
            (RunPhase::CallingTools { rounds }, RunEvent::ToolsRan { pending }) => {
                if self.may_call_tools(rounds, pending) {
                    (RunPhase::CallingTools { rounds: rounds + 1 }, RunAction::CallTools)
                } else {
                    (RunPhase::Finished, RunAction::Finish)
                }
            },
            _ => (phase, RunAction::Wait),
        }
    }
}

/// A run never starts more rounds of tool calls than its settings allow,
/// and once finished it stays finished.
pub proof fn lemma_run_rounds_bounded(
    research_on: bool,
    max_rounds: u32,
    phase: RunPhase,
    event: RunEvent,
)
    requires
        phase_within_limit(max_rounds, phase),
    ensures
        phase_within_limit(max_rounds, run_step(research_on, max_rounds, phase, event).0),
        phase == RunPhase::Finished ==> run_step(research_on, max_rounds, phase, event) == (
            RunPhase::Finished,
            RunAction::Wait,
        ),
        run_step(research_on, max_rounds, phase, event).1 == RunAction::CallTools ==> (
        run_step(research_on, max_rounds, phase, event).0 matches RunPhase::CallingTools { rounds }
            && rounds <= max_rounds),
{
}

/// The conversation a run starts from: the system prompt carrying the
/// user's memory, then the user's message.
pub fn opening_turns(profile: &ProfileView, user_input: &str) -> (r: Vec<Turn>)
    ensures
        r@.len() == 2,
        r@[0].role == Role::System,
        r@[0].content@ == prompt_with_memory(memory_block(*profile)),
        r@[1].role == Role::User,
        r@[1].content@ == user_input@,
{
    let memory_xml = render_memory(profile);
    let system = with_memory(memory_xml.as_str());
    let mut turns: Vec<Turn> = Vec::new();
    turns.push(Turn { role: Role::System, content: system });
    turns.push(Turn { role: Role::User, content: to_owned(user_input) });
    turns
}

} // verus!
