//! Multi-agent planning: split a request into subtasks with
//! dependencies, decide which can run, and track their results.
use vstd::prelude::*;

use crate::text::{
    contains, decimal, decimal_string, digit_char, lowercase, push_str, str_contains, str_to_lowercase,
    to_owned,
};

verus! {

/// What a subtask does.
#[derive(Debug, Clone, Copy, PartialEq, Eq, Structural)]
pub enum SubtaskType {
    Research,
    CodeGeneration,
    FileWrite,
    ShellRun,
    Validation,
    Merge,
}

/// Where a subtask stands.
#[derive(Debug, Clone, PartialEq)]
pub enum SubtaskStatus {
    Pending,
    InProgress,
    Completed,
    Failed(String),
}

/// One unit of work in a plan.
#[derive(Debug, Clone)]
pub struct Subtask {
    pub id: String,
    pub description: String,
    pub file_path: Option<String>,
    pub task_type: SubtaskType,
    pub dependencies: Vec<String>,
    pub status: SubtaskStatus,
}

/// The outcome of running a subtask.
#[derive(Debug, Clone)]
pub struct SubtaskResult {
    pub subtask_id: String,
    pub output: String,
    pub success: bool,
}

/// A request broken into subtasks.
#[derive(Debug, Clone)]
pub struct MultiAgentPlan {
    pub request: String,
    pub subtasks: Vec<Subtask>,
    pub estimated_steps: usize,
}

/// Plans requests.
pub struct TaskPlanner;

/// A planned subtask, as a value: id, description, kind, dependencies.
pub ghost struct TaskSpec {
    pub id: Seq<char>,
    pub description: Seq<char>,
    pub kind: SubtaskType,
    pub deps: Seq<Seq<char>>,
}

/// The id of the `n`-th subtask.
pub open spec fn task_id(n: nat) -> Seq<char> {
    "task-"@ + decimal(n)
}

/// Whether a lower-cased request asks to build something.
pub open spec fn wants_build(lower: Seq<char>) -> bool {
    contains(lower, "create"@) || contains(lower, "build"@) || contains(lower, "generate"@)
}

/// Whether a lower-cased request asks to fix something.
pub open spec fn wants_fix(lower: Seq<char>) -> bool {
    contains(lower, "fix"@) || contains(lower, "bug"@)
}

/// The subtasks planned for a request: research first; for a build, code
/// generation, writing and validation, each depending on the one before;
/// for a fix, bug analysis and a fix that depends on the research.
pub open spec fn planned(request: Seq<char>) -> Seq<TaskSpec> {
    let lower = lowercase(request);
    let research = TaskSpec {
        id: task_id(1),
        description: "Research: find best approach for '"@ + request + "'"@,
        kind: SubtaskType::Research,
        deps: seq![],
    };
    let build = if wants_build(lower) {
        seq![
            TaskSpec {
                id: task_id(2),
                description: "Generate implementation code"@,
                kind: SubtaskType::CodeGeneration,
                deps: seq![task_id(1)],
            },
            TaskSpec {
                id: task_id(3),
                description: "Write generated code to files"@,
                kind: SubtaskType::FileWrite,
                deps: seq![task_id(2)],
            },
            TaskSpec {
                id: task_id(4),
                description: "Validate: check imports, syntax, and build"@,
                kind: SubtaskType::Validation,
                deps: seq![task_id(3)],
            },
        ]
    } else {
        seq![]
    };
    let base = 1 + build.len();
    let fix = if wants_fix(lower) {
        seq![
            TaskSpec {
                id: task_id(base + 1),
                description: "Analyze bug and identify root cause"@,
                kind: SubtaskType::Research,
                deps: seq![],
            },
            TaskSpec {
                id: task_id(base + 2),
                description: "Apply fix with minimal diff"@,
                kind: SubtaskType::CodeGeneration,
                deps: seq![task_id(1)],
            },
        ]
    } else {
        seq![]
    };
    seq![research] + build + fix
}

/// The views of a list of strings.
pub open spec fn strs(v: Seq<String>) -> Seq<Seq<char>> {
    v.map_values(|s: String| s@)
}

/// A subtask as executed matches its planned form and is pending.
pub open spec fn matches_spec(t: Subtask, s: TaskSpec) -> bool {
    &&& t.id@ == s.id
    &&& t.description@ == s.description
    &&& t.task_type == s.kind
    &&& strs(t.dependencies@) == s.deps
    &&& t.file_path is None
    &&& t.status is Pending
}

/// Build a subtask.
fn make_task(n: u64, description: String, kind: SubtaskType, deps: Vec<String>) -> (t: Subtask)
    ensures
        t.id@ == task_id(n as nat),
        t.description@ == description@,
        t.task_type == kind,
        t.dependencies@ == deps@,
        t.file_path is None,
        t.status is Pending,
{
    let mut id = to_owned("task-");
    let num = decimal_string(n as u128);
    push_str(&mut id, num.as_str());
    Subtask {
        id,
        description,
        file_path: None,
        task_type: kind,
        dependencies: deps,
        status: SubtaskStatus::Pending,
    }
}

/// A one-element list holding the id of the `n`-th subtask.
fn dep_on(n: u64) -> (v: Vec<String>)
    ensures
        strs(v@) == seq![task_id(n as nat)],
{
    let mut id = to_owned("task-");
    let num = decimal_string(n as u128);
    push_str(&mut id, num.as_str());
    let mut v: Vec<String> = Vec::new();
    v.push(id);
    assert(strs(v@) =~= seq![task_id(n as nat)]);
    v
}

/// Whether some subtask with id `dep` has completed.
pub open spec fn dep_done(tasks: Seq<Subtask>, dep: Seq<char>) -> bool {
    exists|w: int| 0 <= w < tasks.len() && tasks[w].id@ == dep && tasks[w].status is Completed
}

/// Whether every dependency of subtask `i` names a subtask that has
/// completed (vacuously true without dependencies).
pub open spec fn deps_met(tasks: Seq<Subtask>, i: int) -> bool {
    forall|d: int|
        0 <= d < tasks[i].dependencies@.len() ==> #[trigger] dep_done(
            tasks,
            tasks[i].dependencies@[d]@,
        )
}

/// The ready subtasks, in order.
pub open spec fn ready_from(tasks: Seq<Subtask>, k: int) -> Seq<usize>
    decreases tasks.len() - k,
{
    if k >= tasks.len() || k < 0 {
        seq![]
    } else if deps_met(tasks, k) {
        seq![k as usize] + ready_from(tasks, k + 1)
    } else {
        ready_from(tasks, k + 1)
    }
}

/// The schedule of a plan: one batch of the subtasks whose dependencies
/// are met, or nothing when there is none.
pub open spec fn schedule(tasks: Seq<Subtask>) -> Seq<Seq<usize>> {
    let ready = ready_from(tasks, 0);
    if ready.len() > 0 {
        seq![ready]
    } else {
        seq![]
    }
}

/// Whether a subtask has completed.
fn is_completed(s: &SubtaskStatus) -> (r: bool)
    ensures
        r == (*s is Completed),
{
    match s {
        SubtaskStatus::Completed => true,
        _ => false,
    }
}

/// Whether subtask `i` is ready to run.
fn ready(tasks: &Vec<Subtask>, i: usize) -> (r: bool)
    requires
        i < tasks.len(),
    ensures
        r == deps_met(tasks@, i as int),
{
    let deps = &tasks[i].dependencies;
    let mut d: usize = 0;
    while d < deps.len()
        invariant
            i < tasks.len(),
            deps == tasks@[i as int].dependencies,
            d <= deps.len(),
            forall|e: int| 0 <= e < d ==> #[trigger] dep_done(tasks@, deps@[e]@),
        decreases deps.len() - d,
    {
        let mut s: usize = 0;
        let mut found = false;
        while s < tasks.len() && !found
            invariant
                i < tasks.len(),
                d < deps.len(),
                s <= tasks.len(),
                found ==> dep_done(tasks@, deps@[d as int]@),
                !found ==> forall|t: int|
                    0 <= t < s ==> !(tasks@[t].id@ == deps@[d as int]@ && tasks@[t].status is Completed),
            decreases tasks.len() - s,
        {
            if tasks[s].id == deps[d] && is_completed(&tasks[s].status) {
                found = true;
            }
            s += 1;
        }
        if !found {
            assert(!dep_done(tasks@, deps@[d as int]@));
            return false;
        }
        d += 1;
    }
    true
}

impl TaskPlanner {
    /// Split a request into subtasks.
    pub fn plan(request: &str) -> (p: MultiAgentPlan)
        ensures
            p.request@ == request@,
            p.subtasks@.len() == planned(request@).len(),
            forall|k: int|
                0 <= k < p.subtasks@.len() ==> matches_spec(#[trigger] p.subtasks@[k], planned(request@)[k]),
            p.estimated_steps == p.subtasks@.len(),
    {
        let lower_s = str_to_lowercase(request);
        let lower = lower_s.as_str();
        let ghost want = planned(request@);
        let mut subtasks: Vec<Subtask> = Vec::new();
        let mut desc = to_owned("Research: find best approach for '");
        push_str(&mut desc, request);
        push_str(&mut desc, "'");
        let t1 = make_task(1, desc, SubtaskType::Research, Vec::new());
        subtasks.push(t1);
        let mut next: u64 = 2;
        if str_contains(lower, "create") || str_contains(lower, "build") || str_contains(
            lower,
            "generate",
        ) {
            subtasks.push(
                make_task(
                    2,
                    to_owned("Generate implementation code"),
                    SubtaskType::CodeGeneration,
                    dep_on(1),
                ),
            );
            subtasks.push(
                make_task(
                    3,
                    to_owned("Write generated code to files"),
                    SubtaskType::FileWrite,
                    dep_on(2),
                ),
            );
            subtasks.push(
                make_task(
                    4,
                    to_owned("Validate: check imports, syntax, and build"),
                    SubtaskType::Validation,
                    dep_on(3),
                ),
            );
            next = 5;
        }
        if str_contains(lower, "fix") || str_contains(lower, "bug") {
            subtasks.push(
                make_task(
                    next,
                    to_owned("Analyze bug and identify root cause"),
                    SubtaskType::Research,
                    Vec::new(),
                ),
            );
            subtasks.push(
                make_task(
                    next + 1,
                    to_owned("Apply fix with minimal diff"),
                    SubtaskType::CodeGeneration,
                    dep_on(1),
                ),
            );
        }
        proof {
            assert(strs(Seq::<String>::empty()) =~= Seq::<Seq<char>>::empty());
            assert forall|k: int|
                0 <= k < subtasks@.len() implies matches_spec(#[trigger] subtasks@[k], want[k]) by {
            }
        }
        let n = subtasks.len();
        MultiAgentPlan { request: to_owned(request), subtasks, estimated_steps: n }
    }

    /// The batches in which the plan's subtasks can run.
    pub fn execution_order(plan: &MultiAgentPlan) -> (r: Vec<Vec<usize>>)
        ensures
            r@.len() == schedule(plan.subtasks@).len(),
            forall|b: int| 0 <= b < r@.len() ==> (#[trigger] r@[b])@ == schedule(plan.subtasks@)[b],
    {
        let tasks = &plan.subtasks;
        let mut batch: Vec<usize> = Vec::new();
        let mut i = tasks.len();
        while i > 0
            invariant
                i <= tasks.len(),
                batch@ == ready_from(tasks@, i as int),
            decreases i,
        {
            i -= 1;
            if ready(tasks, i) {
                let mut nb: Vec<usize> = Vec::new();
                nb.push(i);
                let mut k: usize = 0;
                while k < batch.len()
                    invariant
                        k <= batch.len(),
                        nb@ == seq![i] + batch@.take(k as int),
                    decreases batch.len() - k,
                {
                    nb.push(batch[k]);
                    assert(batch@.take(k + 1) =~= batch@.take(k as int).push(batch@[k as int]));
                    k += 1;
                }
                assert(batch@.take(k as int) =~= batch@);
                batch = nb;
            }
        }
        let mut out: Vec<Vec<usize>> = Vec::new();
        if batch.len() > 0 {
            out.push(batch);
        }
        out
    }
}

/// Runs a plan, recording what each subtask produced.
pub struct MultiAgentRunner {
    plan: MultiAgentPlan,
    results: Vec<SubtaskResult>,
}

/// The description of a subtask type, as the plan summary prints it.
pub open spec fn kind_label(t: SubtaskType) -> Seq<char> {
    match t {
        SubtaskType::Research => "Research"@,
        SubtaskType::CodeGeneration => "CodeGeneration"@,
        SubtaskType::FileWrite => "FileWrite"@,
        SubtaskType::ShellRun => "ShellRun"@,
        SubtaskType::Validation => "Validation"@,
        SubtaskType::Merge => "Merge"@,
    }
}

/// The summary lines of subtasks, numbered from `first`.
pub open spec fn summary_lines(tasks: Seq<Subtask>, first: nat) -> Seq<char>
    decreases tasks.len(),
{
    if tasks.len() == 0 {
        seq![]
    } else {
        decimal(first) + ". **"@ + tasks[0].id@ + "** ["@ + kind_label(tasks[0].task_type)
            + "] \u{2014} "@ + tasks[0].description@ + "\n"@ + summary_lines(tasks.drop_first(), first + 1)
    }
}

/// The printed summary of a plan.
pub open spec fn plan_text(p: MultiAgentPlan) -> Seq<char> {
    "## Multi-Agent Plan\n\n**Request:** "@ + p.request@ + "\n\n"@ + summary_lines(p.subtasks@, 1)
}

proof fn lemma_summary_lines_push(tasks: Seq<Subtask>, t: Subtask, first: nat)
    ensures
        summary_lines(tasks.push(t), first) == summary_lines(tasks, first) + decimal(first + tasks.len())
            + ". **"@ + t.id@ + "** ["@ + kind_label(t.task_type) + "] \u{2014} "@ + t.description@
            + "\n"@,
    decreases tasks.len(),
{
    if tasks.len() == 0 {
        let s = seq![t];
        assert(tasks.push(t) =~= s);
        assert(s.drop_first() =~= Seq::<Subtask>::empty());
        assert(summary_lines(s.drop_first(), first + 1) == Seq::<char>::empty());
        assert(summary_lines(tasks, first) == Seq::<char>::empty());
        assert(summary_lines(s, first) =~= summary_lines(tasks, first) + decimal(first + tasks.len())
            + ". **"@ + t.id@ + "** ["@ + kind_label(t.task_type) + "] \u{2014} "@ + t.description@
            + "\n"@);
    } else {
        assert(tasks.push(t).drop_first() =~= tasks.drop_first().push(t));
        lemma_summary_lines_push(tasks.drop_first(), t, first + 1);
        assert(summary_lines(tasks.push(t), first) =~= summary_lines(tasks, first) + decimal(first
            + tasks.len()) + ". **"@ + t.id@ + "** ["@ + kind_label(t.task_type) + "] \u{2014} "@
            + t.description@ + "\n"@);
    }
}

/// The name of a subtask type.
fn kind_label_exec(t: SubtaskType) -> (r: &'static str)
    ensures
        r@ == kind_label(t),
{
    match t {
        SubtaskType::Research => "Research",
        SubtaskType::CodeGeneration => "CodeGeneration",
        SubtaskType::FileWrite => "FileWrite",
        SubtaskType::ShellRun => "ShellRun",
        SubtaskType::Validation => "Validation",
        SubtaskType::Merge => "Merge",
    }
}

/// The statuses after a result arrives: every subtask with the result's
/// id is completed on success and failed with the output otherwise.
pub open spec fn status_after(t: Subtask, r: SubtaskResult) -> SubtaskStatus {
    if t.id@ == r.subtask_id@ {
        if r.success {
            SubtaskStatus::Completed
        } else {
            SubtaskStatus::Failed(r.output)
        }
    } else {
        t.status
    }
}

impl MultiAgentRunner {
    /// The plan being run.
    pub closed spec fn plan_of(&self) -> MultiAgentPlan {
        self.plan
    }

    /// The results recorded so far.
    pub closed spec fn results_of(&self) -> Seq<SubtaskResult> {
        self.results@
    }

    /// A runner for the plan of `request`, with no results yet.
    pub fn new(request: &str) -> (r: Self)
        ensures
            r.plan_of().request@ == request@,
            r.plan_of().subtasks@.len() == planned(request@).len(),
            forall|k: int|
                0 <= k < r.plan_of().subtasks@.len() ==> matches_spec(
                    #[trigger] r.plan_of().subtasks@[k],
                    planned(request@)[k],
                ),
            r.plan_of().estimated_steps == r.plan_of().subtasks@.len(),
            r.results_of().len() == 0,
    {
        let plan = TaskPlanner::plan(request);
        MultiAgentRunner { plan, results: Vec::new() }
    }

    /// The plan being run.
    pub fn plan(&self) -> (r: &MultiAgentPlan)
        ensures
            *r == self.plan_of(),
    {
        &self.plan
    }

    /// The results recorded so far.
    pub fn results(&self) -> (r: &Vec<SubtaskResult>)
        ensures
            r@ == self.results_of(),
    {
        &self.results
    }

    /// Number of subtasks in the plan.
    pub fn subtask_count(&self) -> (r: usize)
        ensures
            r == self.plan_of().subtasks@.len(),
    {
        self.plan.subtasks.len()
    }

    /// A markdown summary of the plan: the request, then one numbered line
    /// per subtask with its id, type and description.
    pub fn plan_summary(&self) -> (r: String)
        ensures
            r@ == plan_text(self.plan_of()),
    {
        let mut summary = to_owned("## Multi-Agent Plan\n\n**Request:** ");
        push_str(&mut summary, self.plan.request.as_str());
        push_str(&mut summary, "\n\n");
        let ghost head = summary@;
        let tasks = &self.plan.subtasks;
        let mut i: usize = 0;
        while i < tasks.len()
            invariant
                i <= tasks.len(),
                summary@ == head + summary_lines(tasks@.take(i as int), 1),
            decreases tasks.len() - i,
        {
            proof {
                assert(tasks@.take(i + 1) =~= tasks@.take(i as int).push(tasks@[i as int]));
                lemma_summary_lines_push(tasks@.take(i as int), tasks@[i as int], 1);
            }
            let task = &tasks[i];
            let num = decimal_string(i as u128 + 1);
            push_str(&mut summary, num.as_str());
            push_str(&mut summary, ". **");
            push_str(&mut summary, task.id.as_str());
            push_str(&mut summary, "** [");
            push_str(&mut summary, kind_label_exec(task.task_type));
            push_str(&mut summary, "] \u{2014} ");
            push_str(&mut summary, task.description.as_str());
            push_str(&mut summary, "\n");
            i += 1;
        }
        assert(tasks@.take(i as int) =~= tasks@);
        summary
    }

    /// The batches in which the plan's subtasks can run now.
    pub fn batches(&self) -> (r: Vec<Vec<usize>>)
        ensures
            r@.len() == schedule(self.plan_of().subtasks@).len(),
            forall|b: int|
                0 <= b < r@.len() ==> (#[trigger] r@[b])@ == schedule(self.plan_of().subtasks@)[b],
    {
        TaskPlanner::execution_order(&self.plan)
    }

    /// Record the result of a subtask: the status of every subtask with
    /// its id becomes completed or failed, and the result is kept.
    pub fn record_result(&mut self, result: SubtaskResult)
        ensures
            final(self).plan_of().request == old(self).plan_of().request,
            final(self).plan_of().estimated_steps == old(self).plan_of().estimated_steps,
            final(self).plan_of().subtasks@.len() == old(self).plan_of().subtasks@.len(),
            forall|k: int|
                0 <= k < final(self).plan_of().subtasks@.len() ==> {
                    let before = old(self).plan_of().subtasks@[k];
                    let after = #[trigger] final(self).plan_of().subtasks@[k];
                    &&& after.id == before.id
                    &&& after.description == before.description
                    &&& after.file_path == before.file_path
                    &&& after.task_type == before.task_type
                    &&& after.dependencies@ == before.dependencies@
                    &&& after.status == status_after(before, result)
                },
            final(self).results_of() == old(self).results_of().push(result),
    {
        let n = self.plan.subtasks.len();
        let ghost before = self.plan.subtasks@;
        let mut updated: Vec<Subtask> = Vec::new();
        let mut old_tasks = Vec::new();
        std::mem::swap(&mut old_tasks, &mut self.plan.subtasks);
        let mut i: usize = 0;
        while i < old_tasks.len()
            invariant
                old_tasks@ == before,
                i <= old_tasks.len(),
                updated@.len() == i,
                forall|k: int|
                    0 <= k < i ==> {
                        let b = before[k];
                        let a = #[trigger] updated@[k];
                        &&& a.id == b.id
                        &&& a.description == b.description
                        &&& a.file_path == b.file_path
                        &&& a.task_type == b.task_type
                        &&& a.dependencies@ == b.dependencies@
                        &&& a.status == status_after(b, result)
                    },
            decreases old_tasks.len() - i,
        {
            let t = &old_tasks[i];
            let status = if t.id == result.subtask_id {
                if result.success {
                    SubtaskStatus::Completed
                } else {
                    SubtaskStatus::Failed(result.output.clone())
                }
            } else {
                clone_status(&t.status)
            };
            let copy = Subtask {
                id: t.id.clone(),
                description: t.description.clone(),
                file_path: clone_opt(&t.file_path),
                task_type: t.task_type,
                dependencies: clone_strings(&t.dependencies),
                status,
            };
            let ghost prev = updated@;
            updated.push(copy);
            proof {
                assert forall|k: int| 0 <= k < i + 1 implies {
                    let b = before[k];
                    let a = #[trigger] updated@[k];
                    &&& a.id == b.id
                    &&& a.description == b.description
                    &&& a.file_path == b.file_path
                    &&& a.task_type == b.task_type
                    &&& a.dependencies@ == b.dependencies@
                    &&& a.status == status_after(b, result)
                } by {
                    if k < i {
                        assert(updated@[k] == prev[k]);
                    } else {
                        assert(updated@[k] == copy);
                        assert(before[k] == *t);
                        assert(copy.id == t.id);
                        assert(copy.dependencies@ == t.dependencies@);
                        assert(copy.file_path == t.file_path);
                        assert(copy.status == status_after(before[k], result));
                    }
                }
            }
            i += 1;
        }
        self.plan.subtasks = updated;
        self.results.push(result);
    }
}

/// A copy of a status.
fn clone_status(s: &SubtaskStatus) -> (r: SubtaskStatus)
    ensures
        r == *s,
{
    match s {
        SubtaskStatus::Pending => SubtaskStatus::Pending,
        SubtaskStatus::InProgress => SubtaskStatus::InProgress,
        SubtaskStatus::Completed => SubtaskStatus::Completed,
        SubtaskStatus::Failed(m) => SubtaskStatus::Failed(m.clone()),
    }
}

/// A copy of an optional string.
fn clone_opt(s: &Option<String>) -> (r: Option<String>)
    ensures
        r == *s,
{
    match s {
        Some(v) => Some(v.clone()),
        None => None,
    }
}

/// A copy of a list of strings.
pub fn clone_strings(v: &Vec<String>) -> (r: Vec<String>)
    ensures
        r@ == v@,
{
    let mut out: Vec<String> = Vec::new();
    let mut i: usize = 0;
    while i < v.len()
        invariant
            i <= v.len(),
            out@ == v@.take(i as int),
        decreases v.len() - i,
    {
        out.push(v[i].clone());
        assert(out@ =~= v@.take(i + 1));
        i += 1;
    }
    assert(v@.take(i as int) =~= v@);
    out
}

/// Ids of small subtask numbers differ.
proof fn lemma_task_ids_differ(a: nat, b: nat)
    requires
        1 <= a <= 9,
        1 <= b <= 9,
        a != b,
    ensures
        task_id(a) != task_id(b),
{
    reveal_strlit("task-");
    let ta = task_id(a);
    let tb = task_id(b);
    assert(decimal(a) == seq![digit_char(a as int)]);
    assert(decimal(b) == seq![digit_char(b as int)]);
    assert(ta.len() == 6);
    assert(ta[5] == digit_char(a as int));
    assert(tb[5] == digit_char(b as int));
}

/// What a request's words put in its plan. Research always comes first.
/// A request whose lower-case form mentions "create", "build" or
/// "generate" gets, right after it, code generation that depends on the
/// research, writing the code to files that depends on the generation, and
/// validation that depends on the writing; any other request gets no
/// writing or validation. A request mentioning "fix" or "bug" ends with
/// an analysis of the bug, which depends on nothing, and a fix that
/// depends on the research. Nothing else is planned; the k-th subtask has
/// the id `task-k`.
pub proof fn lemma_plan_by_request(request: Seq<char>)
    ensures
        ({
            let lower = lowercase(request);
            let build = contains(lower, "create"@) || contains(lower, "build"@) || contains(lower, "generate"@);
            let fix = contains(lower, "fix"@) || contains(lower, "bug"@);
            let p = planned(request);
            &&& p.len() == 1 + (if build { 3int } else { 0int }) + (if fix { 2int } else { 0int })
            &&& forall|k: int| 0 <= k < p.len() ==> (#[trigger] p[k]).id == "task-"@ + decimal((k + 1) as nat)
            &&& p[0].kind == SubtaskType::Research && p[0].deps.len() == 0
            &&& p[0].description == "Research: find best approach for '"@ + request + "'"@
            &&& build ==> {
                &&& p[1].kind == SubtaskType::CodeGeneration && p[1].deps == seq![p[0].id]
                &&& p[1].description == "Generate implementation code"@
                &&& p[2].kind == SubtaskType::FileWrite && p[2].deps == seq![p[1].id]
                &&& p[2].description == "Write generated code to files"@
                &&& p[3].kind == SubtaskType::Validation && p[3].deps == seq![p[2].id]
                &&& p[3].description == "Validate: check imports, syntax, and build"@
            }
            &&& !build ==> forall|k: int|
                0 <= k < p.len() ==> (#[trigger] p[k]).kind != SubtaskType::FileWrite && p[k].kind
                    != SubtaskType::Validation
            &&& fix ==> {
                &&& p[p.len() - 2].kind == SubtaskType::Research && p[p.len() - 2].deps.len() == 0
                &&& p[p.len() - 2].description == "Analyze bug and identify root cause"@
                &&& p[p.len() - 1].kind == SubtaskType::CodeGeneration && p[p.len() - 1].deps == seq![p[0].id]
                &&& p[p.len() - 1].description == "Apply fix with minimal diff"@
            }
        }),
{
}

/// A plan is well formed: research comes first and depends on nothing,
/// every subtask has its own id, and every dependency names a subtask
/// planned before the one that depends on it.
pub proof fn lemma_plan_well_formed(request: Seq<char>)
    ensures
        planned(request).len() >= 1,
        planned(request)[0].kind == SubtaskType::Research,
        planned(request)[0].deps.len() == 0,
        forall|i: int, j: int|
            0 <= i < j < planned(request).len() ==> #[trigger] planned(request)[i].id != #[trigger] planned(
                request,
            )[j].id,
        forall|k: int, d: int|
            0 <= k < planned(request).len() && 0 <= d < planned(request)[k].deps.len() ==> exists|
                j: int,
            |
                0 <= j < k && planned(request)[j].id == #[trigger] planned(request)[k].deps[d],
{
    let p = planned(request);
    let lower = lowercase(request);
    let nb: nat = if wants_build(lower) {
        3
    } else {
        0
    };
    let nf: nat = if wants_fix(lower) {
        2
    } else {
        0
    };
    assert(p.len() == 1 + nb + nf);
    assert forall|k: int| 0 <= k < p.len() implies #[trigger] p[k].id == task_id((k + 1) as nat) by {
    }
    assert forall|i: int, j: int| 0 <= i < j < p.len() implies #[trigger] p[i].id != #[trigger] p[j].id by {
        lemma_task_ids_differ((i + 1) as nat, (j + 1) as nat);
    }
    assert forall|k: int, d: int| 0 <= k < p.len() && 0 <= d < p[k].deps.len() implies exists|j: int|
        0 <= j < k && p[j].id == #[trigger] p[k].deps[d] by {
        if k >= 1 && k <= nb {
            assert(p[k].deps[d] == task_id(k as nat));
            assert(p[k - 1].id == task_id(k as nat));
        } else {
            assert(p[k].deps[d] == task_id(1));
            assert(p[0].id == task_id(1));
        }
    }
}

} // verus!
