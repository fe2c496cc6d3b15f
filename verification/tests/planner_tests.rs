use kontrocode::planner::{MultiAgentRunner, SubtaskResult, SubtaskStatus, SubtaskType, TaskPlanner};

#[test]
fn build_request_plans_four_steps() {
    let p = TaskPlanner::plan("Create a login page");
    assert_eq!(p.estimated_steps, 4);
    let ids: Vec<&str> = p.subtasks.iter().map(|s| s.id.as_str()).collect();
    assert_eq!(ids, vec!["task-1", "task-2", "task-3", "task-4"]);
    assert_eq!(p.subtasks[0].description, "Research: find best approach for 'Create a login page'");
    assert_eq!(p.subtasks[1].task_type, SubtaskType::CodeGeneration);
    assert_eq!(p.subtasks[2].dependencies, vec!["task-2".to_string()]);
    assert_eq!(p.subtasks[3].task_type, SubtaskType::Validation);
    assert!(p.subtasks.iter().all(|s| s.status == SubtaskStatus::Pending));
}

#[test]
fn first_batch_holds_tasks_without_dependencies() {
    let p = TaskPlanner::plan("fix the bug");
    assert_eq!(p.subtasks.len(), 3);
    assert_eq!(TaskPlanner::execution_order(&p), vec![vec![0, 1]]);
}

#[test]
fn plain_request_is_research_only() {
    let p = TaskPlanner::plan("explain closures");
    assert_eq!(p.subtasks.len(), 1);
    assert_eq!(TaskPlanner::execution_order(&p), vec![vec![0]]);
}

#[test]
fn completed_dependencies_unlock_tasks() {
    let mut r = MultiAgentRunner::new("build x and fix bug");
    assert_eq!(r.subtask_count(), 6);
    assert_eq!(r.batches(), vec![vec![0, 4]]);
    r.record_result(SubtaskResult { subtask_id: "task-1".to_string(), output: "done".to_string(), success: true });
    assert_eq!(r.plan().subtasks[0].status, SubtaskStatus::Completed);
    assert_eq!(r.batches(), vec![vec![0, 1, 4, 5]]);
    r.record_result(SubtaskResult { subtask_id: "task-2".to_string(), output: "bad".to_string(), success: false });
    assert_eq!(r.plan().subtasks[1].status, SubtaskStatus::Failed("bad".to_string()));
    assert_eq!(r.results().len(), 2);
}

#[test]
fn plan_summary_lists_subtasks() {
    let r = MultiAgentRunner::new("fix it");
    assert_eq!(
        r.plan_summary(),
        "## Multi-Agent Plan\n\n**Request:** fix it\n\n1. **task-1** [Research] — Research: find best approach for 'fix it'\n2. **task-2** [Research] — Analyze bug and identify root cause\n3. **task-3** [CodeGeneration] — Apply fix with minimal diff\n"
    );
}
