use imi::{goal_status_for, settle_claim, Board, ClaimResult, Goal, GoalStatus, MemoryKind, Priority, Task, TaskError, TaskStatus};

fn task(id: &str, goal: Option<&str>, priority: Priority, created_at: i64) -> Task {
    Task {
        id: id.to_string(),
        goal_id: goal.map(|g| g.to_string()),
        status: TaskStatus::Todo,
        priority,
        agent_id: None,
        created_at,
        updated_at: None,
        last_ping_at: None,
        completed_at: None,
    }
}

fn goal(id: &str) -> Goal {
    Goal { id: id.to_string(), status: GoalStatus::Todo, updated_at: 0 }
}

fn claimed_id(b: &Board, r: ClaimResult) -> String {
    match r {
        ClaimResult::Claimed(i) => b.tasks[i].id.clone(),
        other => panic!("expected a claim, got {:?}", other),
    }
}

const NOW: i64 = 1_700_000_000;

#[test]
fn claims_follow_priority_order() {
    let mut b = Board::new();
    b.tasks.push(task("low", None, Priority::Low, 100));
    b.tasks.push(task("high", None, Priority::High, 100));
    b.tasks.push(task("critical", None, Priority::Critical, 100));
    b.tasks.push(task("medium", None, Priority::Medium, 100));
    let mut order = Vec::new();
    for _ in 0..4 {
        let r = b.claim(None, "agent", NOW);
        order.push(claimed_id(&b, r));
    }
    assert_eq!(order, vec!["critical", "high", "medium", "low"]);
    assert_eq!(b.claim(None, "agent", NOW), ClaimResult::NoTasks);
}

#[test]
fn equal_priorities_are_claimed_oldest_first() {
    let mut b = Board::new();
    b.tasks.push(task("B", None, Priority::Medium, 200));
    b.tasks.push(task("A", None, Priority::Medium, 100));
    let r = b.claim(None, "x", NOW);
    assert_eq!(claimed_id(&b, r), "A");
    let r = b.claim(None, "y", NOW);
    assert_eq!(claimed_id(&b, r), "B");
}

#[test]
fn updated_at_is_the_age_key_when_present() {
    let mut b = Board::new();
    let mut a = task("A", None, Priority::Medium, 100);
    a.updated_at = Some(300);
    b.tasks.push(a);
    b.tasks.push(task("B", None, Priority::Medium, 200));
    let r = b.claim(None, "x", NOW);
    assert_eq!(claimed_id(&b, r), "B");
}

#[test]
fn stale_lease_is_reclaimed_and_fresh_one_kept() {
    let mut b = Board::new();
    let mut old = task("old", None, Priority::Medium, 0);
    old.status = TaskStatus::InProgress;
    old.agent_id = Some("a".to_string());
    old.last_ping_at = Some(NOW - 2000);
    let mut fresh = task("fresh", None, Priority::Medium, 0);
    fresh.status = TaskStatus::InProgress;
    fresh.agent_id = Some("b".to_string());
    fresh.last_ping_at = Some(NOW - 100);
    b.tasks.push(old);
    b.tasks.push(fresh);
    assert_eq!(b.release_stale_locks(NOW), 1);
    assert_eq!(b.tasks[0].status, TaskStatus::Todo);
    assert_eq!(b.tasks[0].agent_id, None);
    assert_eq!(b.tasks[0].updated_at, Some(NOW));
    assert_eq!(b.tasks[1].status, TaskStatus::InProgress);
    assert_eq!(b.tasks[1].agent_id, Some("b".to_string()));
}

#[test]
fn lease_age_falls_back_to_updated_then_created() {
    let mut b = Board::new();
    let mut t = task("t", None, Priority::Low, NOW - 5000);
    t.status = TaskStatus::InProgress;
    t.agent_id = Some("a".to_string());
    t.updated_at = Some(NOW - 10);
    b.tasks.push(t);
    assert_eq!(b.release_stale_locks(NOW), 0);
    b.tasks[0].updated_at = None;
    assert_eq!(b.release_stale_locks(NOW), 1);
}

#[test]
fn lease_exactly_at_ttl_is_kept() {
    let mut b = Board::new();
    let mut t = task("t", None, Priority::Low, 0);
    t.status = TaskStatus::InProgress;
    t.agent_id = Some("a".to_string());
    t.last_ping_at = Some(NOW - 1800);
    b.tasks.push(t);
    assert_eq!(b.release_stale_locks(NOW), 0);
    assert_eq!(b.release_stale_locks(NOW + 1), 1);
}

#[test]
fn goal_status_derivation() {
    let (todo, progress, review, done) = (TaskStatus::Todo, TaskStatus::InProgress, TaskStatus::Review, TaskStatus::Done);
    assert_eq!(goal_status_for(&vec![done, done, progress]), GoalStatus::Ongoing);
    assert_eq!(goal_status_for(&vec![done, done, done]), GoalStatus::Done);
    assert_eq!(goal_status_for(&vec![]), GoalStatus::Todo);
    assert_eq!(goal_status_for(&vec![todo, todo]), GoalStatus::Todo);
    assert_eq!(goal_status_for(&vec![todo, review]), GoalStatus::Review);
    assert_eq!(goal_status_for(&vec![done, todo]), GoalStatus::Ongoing);
    assert_eq!(goal_status_for(&vec![review, progress]), GoalStatus::Ongoing);
}

#[test]
fn same_agent_can_lease_twice() {
    let mut b = Board::new();
    b.tasks.push(task("T", None, Priority::High, 0));
    assert_eq!(b.ensure_in_progress("T", "agentA", NOW), Ok(0));
    assert_eq!(b.ensure_in_progress("T", "agentA", NOW + 5), Ok(0));
    assert_eq!(b.tasks[0].status, TaskStatus::InProgress);
    assert_eq!(b.tasks[0].agent_id, Some("agentA".to_string()));
    assert_eq!(b.tasks[0].last_ping_at, Some(NOW + 5));
}

#[test]
fn direct_lease_refusals() {
    let mut b = Board::new();
    b.tasks.push(task("abc123", None, Priority::High, 0));
    b.tasks.push(task("done1", None, Priority::High, 0));
    b.tasks[1].status = TaskStatus::Done;
    assert_eq!(b.ensure_in_progress("abc", "agentA", NOW), Ok(0));
    assert_eq!(b.ensure_in_progress("abc123", "agentB", NOW), Err(TaskError::AlreadyOwned));
    assert_eq!(b.tasks[0].agent_id, Some("agentA".to_string()));
    assert_eq!(b.ensure_in_progress("done1", "agentB", NOW), Err(TaskError::AlreadyDone));
    assert_eq!(b.ensure_in_progress("zzz", "agentB", NOW), Err(TaskError::NotFound));
}

#[test]
fn exact_id_wins_over_prefix() {
    let mut b = Board::new();
    b.tasks.push(task("ab1", None, Priority::Low, 0));
    b.tasks.push(task("ab", None, Priority::Low, 0));
    assert_eq!(b.resolve_task("ab"), Some(1));
    assert_eq!(b.resolve_task("ab1"), Some(0));
    assert_eq!(b.resolve_task("a"), Some(0));
    assert_eq!(b.resolve_task("c"), None);
}

#[test]
fn fail_requires_reason_and_requeues() {
    let mut b = Board::new();
    b.goals.push(goal("G"));
    b.tasks.push(task("T", Some("G"), Priority::Low, 0));
    b.ensure_in_progress("T", "a", NOW).unwrap();
    assert_eq!(b.goals[0].status, GoalStatus::Ongoing);
    assert_eq!(b.fail("T", "a", "  \n", NOW), Err(TaskError::MissingReason));
    assert_eq!(b.tasks[0].status, TaskStatus::InProgress);
    assert_eq!(b.fail("nope", "a", "broke", NOW), Err(TaskError::NotFound));
    assert_eq!(b.fail("T", "a", "broke", NOW + 1), Ok(0));
    assert_eq!(b.tasks[0].status, TaskStatus::Todo);
    assert_eq!(b.tasks[0].agent_id, None);
    assert_eq!(b.goals[0].status, GoalStatus::Todo);
    let m = b.memories.last().unwrap();
    assert_eq!(m.kind, MemoryKind::FailureReason);
    assert_eq!(m.value, "broke");
    assert_eq!(m.task_id, "T");
    assert_eq!(m.goal_id, Some("G".to_string()));
}

#[test]
fn ping_and_checkpoint_need_a_lease() {
    let mut b = Board::new();
    b.tasks.push(task("T", None, Priority::Low, 0));
    assert_eq!(b.ping("T", NOW), Err(TaskError::NotInProgress));
    assert_eq!(b.ping("X", NOW), Err(TaskError::NotFound));
    assert_eq!(b.checkpoint("T", "a", "", NOW), Err(TaskError::MissingNote));
    assert_eq!(b.checkpoint("T", "a", "half way", NOW), Err(TaskError::NotInProgress));
    b.ensure_in_progress("T", "a", NOW).unwrap();
    assert_eq!(b.ping("T", NOW + 60), Ok(0));
    assert_eq!(b.tasks[0].last_ping_at, Some(NOW + 60));
    assert_eq!(b.checkpoint("T", "a", "half way", NOW + 120), Ok(0));
    assert_eq!(b.tasks[0].last_ping_at, Some(NOW + 120));
    assert_eq!(b.memories.len(), 1);
    assert_eq!(b.memories[0].kind, MemoryKind::Checkpoint);
    assert_eq!(b.memories[0].value, "half way");
    assert_eq!(b.memories[0].kind.key(), "checkpoint");
}

#[test]
fn archived_goals_are_not_scheduled() {
    let mut b = Board::new();
    b.goals.push(Goal { id: "G".to_string(), status: GoalStatus::Archived, updated_at: 0 });
    b.tasks.push(task("T", Some("G"), Priority::Critical, 0));
    b.tasks.push(task("U", Some("missing"), Priority::Critical, 0));
    assert_eq!(b.claim(None, "a", NOW), ClaimResult::NoTasks);
    assert_eq!(b.claim(Some("G"), "a", NOW), ClaimResult::NoTasks);
    b.tasks.push(task("V", None, Priority::Low, 0));
    let r = b.claim(None, "a", NOW);
    assert_eq!(claimed_id(&b, r), "V");
}

fn goal_board() -> Board {
    let mut b = Board::new();
    b.goals.push(goal("G1"));
    b.tasks.push(task("T1", Some("G1"), Priority::High, 100));
    b.tasks.push(task("T2", Some("G1"), Priority::Critical, 100));
    b.tasks.push(task("T3", Some("G1"), Priority::Low, 100));
    b
}

#[test]
fn claim_under_goal_takes_most_urgent() {
    let mut b = goal_board();
    let r = b.claim(Some("G1"), "agentX", NOW);
    assert_eq!(claimed_id(&b, r), "T2");
    assert_eq!(b.tasks[1].status, TaskStatus::InProgress);
    assert_eq!(b.tasks[1].agent_id, Some("agentX".to_string()));
    assert_eq!(b.goals[0].status, GoalStatus::Ongoing);
    assert_eq!(b.goals[0].updated_at, NOW);
}

#[test]
fn stale_lock_release_requeues_task() {
    let mut b = goal_board();
    b.claim(Some("G1"), "agentX", NOW);
    b.tasks[1].last_ping_at = Some(NOW - 2000);
    assert_eq!(b.release_stale_locks(NOW), 1);
    assert_eq!(b.tasks[1].status, TaskStatus::Todo);
    assert_eq!(b.tasks[1].agent_id, None);
    assert_eq!(b.goals[0].status, GoalStatus::Todo);
}

#[test]
fn two_claims_on_last_task() {
    // Both claimers read the store while T3 still waits.
    let mut store = goal_board();
    store.tasks[0].status = TaskStatus::Done;
    store.tasks[1].status = TaskStatus::Done;
    let mut snapshot = goal_board();
    snapshot.tasks[0].status = TaskStatus::Done;
    snapshot.tasks[1].status = TaskStatus::Done;

    let first = store.claim(None, "a1", NOW);
    assert_eq!(claimed_id(&store, first), "T3");
    let first = settle_claim(first, 1, Some((TaskStatus::InProgress, Some("a1".to_string()))), "a1");
    assert_eq!(first, ClaimResult::Claimed(2));

    // The second claimer picked T3 too, but its guarded update found the
    // row no longer waiting.
    let second = snapshot.claim(None, "a2", NOW);
    assert_eq!(second, ClaimResult::Claimed(2));
    assert_eq!(settle_claim(second, 0, None, "a2"), ClaimResult::RaceLost);

    // Against the store as it now stands nothing is left.
    assert_eq!(store.claim(None, "a2", NOW), ClaimResult::NoTasks);
}

#[test]
fn post_commit_check_rejects_another_owner() {
    let r = settle_claim(ClaimResult::Claimed(4), 1, Some((TaskStatus::InProgress, Some("b".to_string()))), "a");
    assert_eq!(r, ClaimResult::RaceLost);
    let r = settle_claim(ClaimResult::Claimed(4), 1, Some((TaskStatus::Todo, Some("a".to_string()))), "a");
    assert_eq!(r, ClaimResult::RaceLost);
    let r = settle_claim(ClaimResult::Claimed(4), 1, Some((TaskStatus::InProgress, None)), "");
    assert_eq!(r, ClaimResult::Claimed(4));
    assert_eq!(settle_claim(ClaimResult::NoTasks, 0, None, "a"), ClaimResult::NoTasks);
}

#[test]
fn completion_records_summary() {
    let mut b = goal_board();
    b.tasks[0].status = TaskStatus::Done;
    b.tasks[1].status = TaskStatus::Done;
    b.claim(None, "a1", NOW);
    assert_eq!(b.goals[0].status, GoalStatus::Ongoing);
    assert_eq!(b.complete("T3", "a1", "done", NOW + 10), Ok(2));
    assert_eq!(b.tasks[2].status, TaskStatus::Done);
    assert_eq!(b.tasks[2].agent_id, None);
    assert_eq!(b.tasks[2].completed_at, Some(NOW + 10));
    let m = b.memories.last().unwrap();
    assert_eq!(m.kind, MemoryKind::CompletionSummary);
    assert_eq!(m.task_id, "T3");
    assert_eq!(m.value, "done");
    assert_eq!(m.source, "a1");
    assert_eq!(b.goals[0].status, GoalStatus::Done);
}

#[test]
fn blank_summary_is_recorded_as_completed() {
    let mut b = Board::new();
    b.tasks.push(task("T", None, Priority::Low, 0));
    assert_eq!(b.complete("T", "a", "   ", NOW), Ok(0));
    assert_eq!(b.memories[0].value, "completed");
    assert_eq!(b.complete("Q", "a", "x", NOW), Err(TaskError::NotFound));
}

#[test]
fn status_texts_round_trip() {
    for s in [TaskStatus::Todo, TaskStatus::InProgress, TaskStatus::Review, TaskStatus::Done, TaskStatus::Failed, TaskStatus::Blocked, TaskStatus::Cancelled] {
        assert_eq!(TaskStatus::parse(s.as_str()), Some(s));
    }
    for s in [GoalStatus::Todo, GoalStatus::Ongoing, GoalStatus::Review, GoalStatus::Done, GoalStatus::Archived] {
        assert_eq!(GoalStatus::parse(s.as_str()), Some(s));
    }
    assert_eq!(TaskStatus::parse("in progress"), None);
    assert_eq!(Priority::parse("critical"), Priority::Critical);
    assert_eq!(Priority::parse("urgent"), Priority::Unranked);
    assert_eq!(Priority::Unranked.rank(), 0);
    assert_eq!(Priority::Critical.rank(), 4);
}

#[test]
fn goals_resolve_by_id_or_prefix() {
    let mut b = Board::new();
    b.goals.push(goal("g12"));
    b.goals.push(goal("g1"));
    assert_eq!(b.resolve_goal("g1"), Some(1));
    assert_eq!(b.resolve_goal("g12"), Some(0));
    assert_eq!(b.resolve_goal("g"), Some(0));
    assert_eq!(b.resolve_goal("h"), None);
}

#[test]
fn refusal_messages() {
    assert_eq!(TaskError::NotFound.message("abc"), "No task with ID 'abc' — run `imi tasks` to list available tasks");
    assert_eq!(TaskError::AlreadyDone.message("abc"), "task is already done");
    assert_eq!(TaskError::MissingReason.message(""), "reason is required");
}

#[test]
fn acting_agent_choice() {
    assert_eq!(imi::current_agent(Some("env"), Some("flag"), Some("me"), None), "env");
    assert_eq!(imi::current_agent(Some("  "), Some("flag"), Some("me"), None), "flag");
    assert_eq!(imi::current_agent(None, Some(""), Some("me"), Some("other")), "me");
    assert_eq!(imi::current_agent(None, None, None, Some("other")), "other");
    assert_eq!(imi::current_agent(None, None, None, None), "agent");
}
