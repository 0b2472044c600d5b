use imi::{Board, ClaimResult, Orchestrator, PoolError, Priority, Task, TaskStatus, Watchdog};

fn ready(id: &str) -> Task {
    Task {
        id: id.to_string(),
        goal_id: None,
        status: TaskStatus::Todo,
        priority: Priority::Medium,
        agent_id: None,
        created_at: 0,
        updated_at: None,
        last_ping_at: None,
        completed_at: None,
    }
}

#[test]
fn pool_of_two_runs_five_tasks() {
    let mut b = Board::new();
    for id in ["t1", "t2", "t3", "t4", "t5"] {
        b.tasks.push(ready(id));
    }
    let mut o = Orchestrator::new(2, None).unwrap();
    let mut running: Vec<usize> = Vec::new();
    let mut peak = 0;
    let mut now = 1000;
    let mut t4_failed = false;
    while !o.finished() {
        while o.wants_claim() {
            let agent = o.worker_agent("imi-worker");
            match b.claim(None, &agent, now) {
                ClaimResult::Claimed(i) => {
                    o.on_launched(true);
                    running.push(i);
                }
                ClaimResult::RaceLost => o.on_race_lost(),
                ClaimResult::NoTasks => o.on_no_tasks(),
            }
        }
        let busy = b.tasks.iter().filter(|t| t.status == TaskStatus::InProgress).count();
        peak = peak.max(busy);
        if let Some(i) = running.pop() {
            let id = b.tasks[i].id.clone();
            let ok = id != "t4" || t4_failed;
            t4_failed = t4_failed || id == "t4";
            if ok {
                b.complete(&id, "w", "ok", now).unwrap();
            } else {
                b.fail(&id, "w", "worker exited with status 1", now).unwrap();
            }
            o.on_exit(ok);
        }
        now += 1;
    }
    // The failed task went back to the queue and was claimed again.
    assert!(peak <= 2);
    assert_eq!(o.launched, 6);
    assert_eq!(o.completed, 5);
    assert_eq!(o.failed, 1);
    assert!(!o.succeeded());
    assert!(b.tasks.iter().all(|t| t.status == TaskStatus::Done));
    let failed = b.memories.iter().filter(|m| m.kind.key() == "failure_reason").count();
    assert_eq!(failed, 1);
}

#[test]
fn pool_needs_a_worker() {
    assert!(matches!(Orchestrator::new(0, None), Err(PoolError::NoWorkers)));
}

#[test]
fn pool_stops_at_task_cap() {
    let mut o = Orchestrator::new(3, Some(1)).unwrap();
    assert!(o.wants_claim());
    o.on_launched(true);
    assert!(!o.wants_claim());
    assert!(!o.finished());
    o.on_exit(true);
    assert!(o.finished());
    assert!(o.succeeded());
}

#[test]
fn spawn_failure_counts_as_failed() {
    let mut o = Orchestrator::new(1, None).unwrap();
    o.on_launched(false);
    assert_eq!(o.active, 0);
    assert_eq!(o.failed, 1);
    assert_eq!(o.launched, 1);
}

#[test]
fn races_past_eight_per_worker_exhaust_the_queue() {
    let mut o = Orchestrator::new(1, None).unwrap();
    for _ in 0..8 {
        o.on_race_lost();
        assert!(o.wants_claim());
    }
    o.on_race_lost();
    assert!(!o.wants_claim());
    assert!(o.finished());
}

#[test]
fn a_launch_resets_the_race_guard() {
    let mut o = Orchestrator::new(1, None).unwrap();
    o.on_race_lost();
    o.on_race_lost();
    o.on_launched(true);
    assert_eq!(o.race_guard, 0);
}

#[test]
fn worker_agents_are_numbered_from_one() {
    let mut o = Orchestrator::new(2, None).unwrap();
    assert_eq!(o.worker_agent("imi-worker"), "imi-worker-1");
    o.on_launched(true);
    assert_eq!(o.worker_agent("pool"), "pool-2");
}

#[test]
fn watchdog_needs_an_interval() {
    assert!(Watchdog::new(0, 0, 10).is_none());
    assert!(Watchdog::new(5, 0, 10).is_some());
}

#[test]
fn watchdog_schedules_pings_and_checkpoints() {
    let mut w = Watchdog::new(30, 120, 1000).unwrap();
    assert!(!w.ping_due(1029));
    assert!(w.ping_due(1030));
    w.note_ping(1030);
    assert!(!w.ping_due(1031));
    assert!(!w.checkpoint_due(1119));
    assert!(w.checkpoint_due(1120));
    assert_eq!(w.checkpoint_note(1120), "Auto-checkpoint: still running via IMI wrapper (2m elapsed)");
    assert_eq!(w.checkpoint_note(1010), "Auto-checkpoint: still running via IMI wrapper (1m elapsed)");
    w.note_checkpoint(1120);
    assert_eq!(w.last_ping, 1120);
    assert!(!w.ping_due(900));
    assert_eq!(w.elapsed_minutes(1000 + 3600), 60);
}

#[test]
fn watchdog_stops_when_lease_is_gone() {
    assert!(Watchdog::keep_running(1));
    assert!(!Watchdog::keep_running(0));
    let w = Watchdog::new(0, 60, 0).unwrap();
    assert!(!w.ping_due(1_000_000));
}
