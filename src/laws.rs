use vstd::prelude::*;
use crate::board::{
    claim_post, claimed_before, confirms, eligible, goal_open, goals_synced,
    lemma_first_from_ids, resolve, Board, ClaimResult,
};
use crate::lifecycle::{ensure_post, owned_by_other, TaskError};
use crate::model::{opt_text, queue_stamp, rank, Goal, GoalStatus, Task, TaskStatus};

verus! {

/// Bringing a goal in line never archives or unarchives it, so the set of
/// open goals stays the same.
pub proof fn lemma_sync_keeps_open_goals(old: Seq<Goal>, new: Seq<Goal>, tasks: Seq<Task>, gid: Option<Seq<char>>, now: i64, g: Seq<char>)
    requires
        goals_synced(old, new, tasks, gid, now),
    ensures
        goal_open(new, g) == goal_open(old, g),
{
    if goal_open(old, g) {
        let k = choose|k: int| 0 <= k < old.len() && old[k].id@ == g && old[k].status != GoalStatus::Archived;
        let _ = old[k];
        assert(new[k].id@ == g && new[k].status != GoalStatus::Archived);
    }
    if goal_open(new, g) {
        let k = choose|k: int| 0 <= k < new.len() && new[k].id@ == g && new[k].status != GoalStatus::Archived;
        let _ = old[k];
        assert(old[k].id@ == g && old[k].status != GoalStatus::Archived);
    }
}

/// A store in which no task waits in `Todo` answers every claim with
/// `NoTasks` and stays as it is.
proof fn lemma_no_waiting_task_claims_nothing(
    boards: Seq<Board>,
    filters: Seq<Option<Seq<char>>>,
    agents: Seq<Seq<char>>,
    nows: Seq<i64>,
    results: Seq<ClaimResult>,
    k: int,
)
    requires
        boards.len() == results.len() + 1,
        filters.len() == results.len(),
        agents.len() == results.len(),
        nows.len() == results.len(),
        forall|m: int| 0 <= m < results.len() ==> claim_post(#[trigger] boards[m], boards[m + 1], filters[m], agents[m], nows[m], results[m]),
        0 <= k <= results.len(),
        forall|j: int| 0 <= j < boards[k].tasks@.len() ==> (#[trigger] boards[k].tasks@[j]).status != TaskStatus::Todo,
    ensures
        forall|m: int| k <= m < results.len() ==> results[m] == ClaimResult::NoTasks,
    decreases results.len() - k,
{
    if k < results.len() {
        let _ = claim_post(boards[k], boards[k + 1], filters[k], agents[k], nows[k], results[k]);
        match results[k] {
            ClaimResult::Claimed(i) => {
                assert(eligible(boards[k].goals@, boards[k].tasks@[i as int], filters[k]));
            },
            _ => {},
        }
        lemma_no_waiting_task_claims_nothing(boards, filters, agents, nows, results, k + 1);
    }
}

/// Exclusivity: when task `t` is the only task waiting and every claimer
/// may take it, a run of claims hands it out exactly once, to the first
/// claimer, and every later claim finds nothing.
pub proof fn lemma_claims_exclusive(
    boards: Seq<Board>,
    filters: Seq<Option<Seq<char>>>,
    agents: Seq<Seq<char>>,
    nows: Seq<i64>,
    results: Seq<ClaimResult>,
    t: int,
)
    requires
        boards.len() == results.len() + 1,
        filters.len() == results.len(),
        agents.len() == results.len(),
        nows.len() == results.len(),
        forall|m: int| 0 <= m < results.len() ==> claim_post(#[trigger] boards[m], boards[m + 1], filters[m], agents[m], nows[m], results[m]),
        0 <= t < boards[0].tasks@.len(),
        forall|j: int| 0 <= j < boards[0].tasks@.len() && j != t ==> (#[trigger] boards[0].tasks@[j]).status != TaskStatus::Todo,
        forall|m: int| 0 <= m < filters.len() ==> eligible(boards[0].goals@, boards[0].tasks@[t], #[trigger] filters[m]),
    ensures
        results.len() > 0 ==> results[0] == ClaimResult::Claimed(t as usize),
        forall|m: int| 1 <= m < results.len() ==> results[m] == ClaimResult::NoTasks,
{
    if results.len() > 0 {
        let b0 = boards[0];
        let b1 = boards[1];
        assert(claim_post(b0, b1, filters[0], agents[0], nows[0], results[0]));
        match results[0] {
            ClaimResult::Claimed(i) => {
                if i as int != t {
                    assert(eligible(b0.goals@, b0.tasks@[i as int], filters[0]));
                }
                assert forall|j: int| 0 <= j < b1.tasks@.len() implies (#[trigger] b1.tasks@[j]).status != TaskStatus::Todo by {
                    if j != t {
                        assert(b1.tasks@[j] == b0.tasks@[j]);
                    }
                }
            },
            ClaimResult::NoTasks => {
                assert(!eligible(b0.goals@, b0.tasks@[t], filters[0]));
            },
            ClaimResult::RaceLost => {},
        }
        lemma_no_waiting_task_claims_nothing(boards, filters, agents, nows, results, 1);
    }
}

/// Order: of two claims in a row under one filter, the first hands out a
/// task of no lower priority than the second, and of equal priority a task
/// that has waited at least as long.
pub proof fn lemma_claim_order(
    b0: Board,
    b1: Board,
    b2: Board,
    filter: Option<Seq<char>>,
    a1: Seq<char>,
    a2: Seq<char>,
    now1: i64,
    now2: i64,
    i: usize,
    j: usize,
)
    requires
        claim_post(b0, b1, filter, a1, now1, ClaimResult::Claimed(i)),
        claim_post(b1, b2, filter, a2, now2, ClaimResult::Claimed(j)),
    ensures
        i != j,
        claimed_before(b0.tasks@[i as int], b0.tasks@[j as int]),
        rank(b0.tasks@[i as int].priority) >= rank(b0.tasks@[j as int].priority),
        rank(b0.tasks@[i as int].priority) == rank(b0.tasks@[j as int].priority) ==> queue_stamp(b0.tasks@[i as int])
            <= queue_stamp(b0.tasks@[j as int]),
{
    let tj = b1.tasks@[j as int];
    assert(eligible(b1.goals@, tj, filter));
    assert(j != i);
    assert(b0.tasks@[j as int] == tj);
    match opt_text(tj.goal_id) {
        Some(g) => {
            lemma_sync_keeps_open_goals(b0.goals@, b1.goals@, b1.tasks@, opt_text(b0.tasks@[i as int].goal_id), now1, g);
        },
        None => {},
    }
    assert(eligible(b0.goals@, b0.tasks@[j as int], filter));
}

/// A direct lease by the agent that already holds the task succeeds again:
/// leasing the same task twice in a row by one agent returns it both times
/// and leaves it in progress under that agent.
pub proof fn lemma_ensure_in_progress_idempotent(
    b0: Board,
    b1: Board,
    b2: Board,
    task_ref: Seq<char>,
    agent: Seq<char>,
    now1: i64,
    now2: i64,
    r1: Result<usize, TaskError>,
    r2: Result<usize, TaskError>,
)
    requires
        ensure_post(b0, b1, task_ref, agent, now1, r1),
        ensure_post(b1, b2, task_ref, agent, now2, r2),
        resolve(b0.tasks@, task_ref) is Some,
        b0.tasks@[resolve(b0.tasks@, task_ref).unwrap()].status != TaskStatus::Done,
        !owned_by_other(b0.tasks@[resolve(b0.tasks@, task_ref).unwrap()], agent),
    ensures
        r1 is Ok,
        r2 == r1,
        b2.tasks@[resolve(b0.tasks@, task_ref).unwrap()].status == TaskStatus::InProgress,
        opt_text(b2.tasks@[resolve(b0.tasks@, task_ref).unwrap()].agent_id) == Some(agent),
{
    let i = resolve(b0.tasks@, task_ref).unwrap();
    assert forall|k: int| 0 <= k < b0.tasks@.len() implies (#[trigger] b0.tasks@[k]).id@ == b1.tasks@[k].id@ by {
        if k != i {
            assert(b1.tasks@[k] == b0.tasks@[k]);
        }
    }
    lemma_first_from_ids(b0.tasks@, b1.tasks@, task_ref, true, 0);
    lemma_first_from_ids(b0.tasks@, b1.tasks@, task_ref, false, 0);
    assert(resolve(b1.tasks@, task_ref) == Some(i));
    let t1 = b1.tasks@[i];
    assert(t1.status == TaskStatus::InProgress);
    assert(!owned_by_other(t1, agent));
}

/// The post-commit check admits one holder: one reading of a row cannot
/// confirm two different claimers.
pub proof fn lemma_one_confirmed_holder(reread: Option<(TaskStatus, Option<String>)>, a: Seq<char>, b: Seq<char>)
    requires
        confirms(reread, a),
        confirms(reread, b),
    ensures
        a == b,
{
}

} // verus!
