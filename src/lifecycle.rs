use vstd::prelude::*;
use vstd::string::*;
use crate::board::{copy_text, goals_synced, leased_to, leases_consistent, resolve, Board};
use crate::model::{lease_consistent, lease_stamp, opt_text, Goal, GoalStatus, Memory, MemoryKind, Task, TaskStatus};
use crate::sync::{belongs, goal_status_in};
use crate::text::{blank, is_blank};

verus! {

/// How long a lease lives without a heartbeat, in seconds.
pub const LEASE_TTL_SECS: i64 = 1800;

/// Why a lifecycle operation was refused. No refusal changes the store.
#[derive(Clone, Copy, Debug, PartialEq, Eq, Structural)]
pub enum TaskError {
    /// No task has that id or an id beginning with it.
    NotFound,
    /// The task is leased to another agent.
    AlreadyOwned,
    /// The task is done.
    AlreadyDone,
    /// The task holds no lease to renew.
    NotInProgress,
    /// A failure needs a reason that is not blank.
    MissingReason,
    /// A checkpoint needs a note that is not blank.
    MissingNote,
}

pub open spec fn error_text(e: TaskError, task_ref: Seq<char>) -> Seq<char> {
    match e {
        TaskError::NotFound => "No task with ID '"@ + task_ref + "' — run `imi tasks` to list available tasks"@,
        TaskError::AlreadyOwned => "task already in progress by another agent"@,
        TaskError::AlreadyDone => "task is already done"@,
        TaskError::NotInProgress => "task is not in progress"@,
        TaskError::MissingReason => "reason is required"@,
        TaskError::MissingNote => "progress note is required"@,
    }
}

impl TaskError {
    /// The message shown for the refusal of an operation on `task_ref`.
    pub fn message(&self, task_ref: &str) -> (r: String)
        ensures
            r@ == error_text(*self, task_ref@),
    {
        match self {
            TaskError::NotFound => {
                let mut s = String::from_str("No task with ID '");
                s.append(task_ref);
                s.append("' — run `imi tasks` to list available tasks");
                s
            },
            TaskError::AlreadyOwned => String::from_str("task already in progress by another agent"),
            TaskError::AlreadyDone => String::from_str("task is already done"),
            TaskError::NotInProgress => String::from_str("task is not in progress"),
            TaskError::MissingReason => String::from_str("reason is required"),
            TaskError::MissingNote => String::from_str("progress note is required"),
        }
    }
}

/// Whether the lease on `t` has run out at `now`.
pub open spec fn stale(t: Task, now: i64) -> bool {
    t.status == TaskStatus::InProgress && lease_stamp(t) < now - LEASE_TTL_SECS
}

/// How many tasks of `s` hold a lease that has run out at `now`.
pub open spec fn count_stale(s: Seq<Task>, now: i64) -> nat
    decreases s.len(),
{
    if s.len() == 0 {
        0
    } else {
        count_stale(s.drop_last(), now) + if stale(s.last(), now) {
            1nat
        } else {
            0nat
        }
    }
}

/// The goal ids of the tasks of `s` whose lease ran out at `now`, in order.
pub open spec fn stale_goals(s: Seq<Task>, now: i64) -> Seq<Seq<char>>
    decreases s.len(),
{
    if s.len() == 0 {
        Seq::empty()
    } else {
        let rest = stale_goals(s.drop_last(), now);
        match s.last().goal_id {
            Some(g) => if stale(s.last(), now) {
                rest.push(g@)
            } else {
                rest
            },
            None => rest,
        }
    }
}

pub open spec fn text_list(v: Seq<String>) -> Seq<Seq<char>> {
    v.map_values(|s: String| s@)
}

proof fn lemma_stale_goals(s: Seq<Task>, now: i64, g: Seq<char>)
    ensures
        stale_goals(s, now).contains(g) <==> exists|j: int| 0 <= j < s.len() && stale(s[j], now) && belongs(#[trigger] s[j], g),
    decreases s.len(),
{
    if s.len() > 0 {
        let init = s.drop_last();
        lemma_stale_goals(init, now, g);
        let rest = stale_goals(init, now);
        let t = s.last();
        if stale_goals(s, now).contains(g) {
            let p = choose|p: int| 0 <= p < stale_goals(s, now).len() && stale_goals(s, now)[p] == g;
            if p < rest.len() {
                assert(rest[p] == g);
                let j = choose|j: int| 0 <= j < init.len() && stale(init[j], now) && belongs(#[trigger] init[j], g);
                assert(s[j] == init[j]);
            } else {
                assert(belongs(s[s.len() - 1], g));
            }
        }
        if exists|j: int| 0 <= j < s.len() && stale(s[j], now) && belongs(#[trigger] s[j], g) {
            let j = choose|j: int| 0 <= j < s.len() && stale(s[j], now) && belongs(#[trigger] s[j], g);
            if j < s.len() - 1 {
                assert(init[j] == s[j]);
                let p = choose|p: int| 0 <= p < rest.len() && rest[p] == g;
                assert(stale_goals(s, now)[p] == g);
            } else {
                assert(stale_goals(s, now)[stale_goals(s, now).len() - 1] == g);
            }
        }
    }
}

/// `new` keeps the identity and scheduling fields of `old`.
pub open spec fn same_identity(old: Task, new: Task) -> bool {
    &&& new.id == old.id
    &&& new.goal_id == old.goal_id
    &&& new.priority == old.priority
    &&& new.created_at == old.created_at
}

/// `new` is `old` returned to the queue at `now`, lease cleared.
pub open spec fn requeued(old: Task, new: Task, now: i64) -> bool {
    &&& same_identity(old, new)
    &&& new.completed_at == old.completed_at
    &&& new.last_ping_at == old.last_ping_at
    &&& new.status == TaskStatus::Todo
    &&& new.agent_id is None
    &&& new.updated_at == Some(now)
}

/// `new` is `old` finished at `now`.
pub open spec fn finished(old: Task, new: Task, now: i64) -> bool {
    &&& same_identity(old, new)
    &&& new.last_ping_at == old.last_ping_at
    &&& new.status == TaskStatus::Done
    &&& new.agent_id is None
    &&& new.updated_at == Some(now)
    &&& new.completed_at == Some(now)
}

/// `new` is `old` with its lease renewed at `now`.
pub open spec fn pinged(old: Task, new: Task, now: i64) -> bool {
    &&& same_identity(old, new)
    &&& new.completed_at == old.completed_at
    &&& new.status == old.status
    &&& new.agent_id == old.agent_id
    &&& new.updated_at == Some(now)
    &&& new.last_ping_at == Some(now)
}

/// `m` records an event of `kind` on task `t`.
pub open spec fn records(m: Memory, t: Task, kind: MemoryKind, value: Seq<char>, source: Seq<char>, now: i64) -> bool {
    &&& m.goal_id == t.goal_id
    &&& m.task_id == t.id
    &&& m.kind == kind
    &&& m.value@ == value
    &&& m.source@ == source
    &&& m.created_at == now
}

/// Task `t` is leased to an agent other than `agent`.
pub open spec fn owned_by_other(t: Task, agent: Seq<char>) -> bool {
    t.status == TaskStatus::InProgress && match opt_text(t.agent_id) {
        Some(o) => o.len() > 0 && o != agent,
        None => false,
    }
}

/// The text stored for a completion whose summary is `s`.
pub open spec fn summary_text(s: Seq<char>) -> Seq<char> {
    if blank(s) {
        "completed"@
    } else {
        s
    }
}

/// Only task `i` changed, and its goal was brought in line with the new
/// task list.
pub open spec fn task_changed(old: Board, new: Board, i: int, now: i64) -> bool {
    &&& 0 <= i < old.tasks@.len()
    &&& new.tasks@.len() == old.tasks@.len()
    &&& new.tasks@ == old.tasks@.update(i, new.tasks@[i])
    &&& goals_synced(old.goals@, new.goals@, new.tasks@, opt_text(old.tasks@[i].goal_id), now)
}

/// Goals that a reclaim touched were brought in line; the others kept.
pub open spec fn goals_resynced(old: Seq<Goal>, new: Seq<Goal>, old_tasks: Seq<Task>, tasks: Seq<Task>, now: i64) -> bool {
    &&& new.len() == old.len()
    &&& forall|k: int| 0 <= k < old.len() ==> {
        let g = #[trigger] old[k];
        if g.status != GoalStatus::Archived && exists|j: int|
            0 <= j < old_tasks.len() && stale(old_tasks[j], now) && belongs(#[trigger] old_tasks[j], g.id@) {
            new[k].id == g.id && new[k].status == goal_status_in(tasks, g.id@) && new[k].updated_at == now
        } else {
            new[k] == g
        }
    }
}

/// What releasing stale leases at `now` does to the store.
pub open spec fn release_post(old: Board, new: Board, now: i64, n: usize) -> bool {
    &&& n == count_stale(old.tasks@, now)
    &&& new.tasks@.len() == old.tasks@.len()
    &&& forall|j: int| 0 <= j < old.tasks@.len() ==> if stale(#[trigger] old.tasks@[j], now) {
        requeued(old.tasks@[j], new.tasks@[j], now)
    } else {
        new.tasks@[j] == old.tasks@[j]
    }
    &&& goals_resynced(old.goals@, new.goals@, old.tasks@, new.tasks@, now)
    &&& new.memories == old.memories
}

/// What leasing the task named `task_ref` to `agent` directly does.
pub open spec fn ensure_post(old: Board, new: Board, task_ref: Seq<char>, agent: Seq<char>, now: i64, r: Result<usize, TaskError>) -> bool {
    match resolve(old.tasks@, task_ref) {
        None => r == Err::<usize, TaskError>(TaskError::NotFound) && new == old,
        Some(i) => {
            let t = old.tasks@[i];
            if t.status == TaskStatus::Done {
                r == Err::<usize, TaskError>(TaskError::AlreadyDone) && new == old
            } else if owned_by_other(t, agent) {
                r == Err::<usize, TaskError>(TaskError::AlreadyOwned) && new == old
            } else {
                &&& r == Ok::<usize, TaskError>(i as usize)
                &&& leased_to(t, new.tasks@[i], agent, now)
                &&& task_changed(old, new, i, now)
                &&& new.memories == old.memories
            }
        },
    }
}

/// What completing the task named `task_ref` does.
pub open spec fn complete_post(old: Board, new: Board, task_ref: Seq<char>, agent: Seq<char>, summary: Seq<char>, now: i64, r: Result<usize, TaskError>) -> bool {
    match resolve(old.tasks@, task_ref) {
        None => r == Err::<usize, TaskError>(TaskError::NotFound) && new == old,
        Some(i) => {
            &&& r == Ok::<usize, TaskError>(i as usize)
            &&& finished(old.tasks@[i], new.tasks@[i], now)
            &&& task_changed(old, new, i, now)
            &&& new.memories@.len() == old.memories@.len() + 1
            &&& new.memories@.drop_last() == old.memories@
            &&& records(new.memories@.last(), old.tasks@[i], MemoryKind::CompletionSummary, summary_text(summary), agent, now)
        },
    }
}

/// What failing the task named `task_ref` with `reason` does.
pub open spec fn fail_post(old: Board, new: Board, task_ref: Seq<char>, agent: Seq<char>, reason: Seq<char>, now: i64, r: Result<usize, TaskError>) -> bool {
    if blank(reason) {
        r == Err::<usize, TaskError>(TaskError::MissingReason) && new == old
    } else {
        match resolve(old.tasks@, task_ref) {
            None => r == Err::<usize, TaskError>(TaskError::NotFound) && new == old,
            Some(i) => {
                &&& r == Ok::<usize, TaskError>(i as usize)
                &&& requeued(old.tasks@[i], new.tasks@[i], now)
                &&& task_changed(old, new, i, now)
                &&& new.memories@.len() == old.memories@.len() + 1
                &&& new.memories@.drop_last() == old.memories@
                &&& records(new.memories@.last(), old.tasks@[i], MemoryKind::FailureReason, reason, agent, now)
            },
        }
    }
}

/// What renewing the lease of the task named `task_ref` does.
pub open spec fn ping_post(old: Board, new: Board, task_ref: Seq<char>, now: i64, r: Result<usize, TaskError>) -> bool {
    match resolve(old.tasks@, task_ref) {
        None => r == Err::<usize, TaskError>(TaskError::NotFound) && new == old,
        Some(i) => if old.tasks@[i].status != TaskStatus::InProgress {
            r == Err::<usize, TaskError>(TaskError::NotInProgress) && new == old
        } else {
            &&& r == Ok::<usize, TaskError>(i as usize)
            &&& pinged(old.tasks@[i], new.tasks@[i], now)
            &&& new.tasks@ == old.tasks@.update(i, new.tasks@[i])
            &&& new.goals == old.goals
            &&& new.memories == old.memories
        },
    }
}

/// What recording a progress note on the task named `task_ref` does.
pub open spec fn checkpoint_post(old: Board, new: Board, task_ref: Seq<char>, agent: Seq<char>, note: Seq<char>, now: i64, r: Result<usize, TaskError>) -> bool {
    if blank(note) {
        r == Err::<usize, TaskError>(TaskError::MissingNote) && new == old
    } else {
        match resolve(old.tasks@, task_ref) {
            None => r == Err::<usize, TaskError>(TaskError::NotFound) && new == old,
            Some(i) => if old.tasks@[i].status != TaskStatus::InProgress {
                r == Err::<usize, TaskError>(TaskError::NotInProgress) && new == old
            } else {
                &&& r == Ok::<usize, TaskError>(i as usize)
                &&& pinged(old.tasks@[i], new.tasks@[i], now)
                &&& new.tasks@ == old.tasks@.update(i, new.tasks@[i])
                &&& new.goals == old.goals
                &&& new.memories@.len() == old.memories@.len() + 1
                &&& new.memories@.drop_last() == old.memories@
                &&& records(new.memories@.last(), old.tasks@[i], MemoryKind::Checkpoint, note, agent, now)
            },
        }
    }
}

fn is_stale(t: &Task, now: i64) -> (r: bool)
    ensures
        r == stale(*t, now),
{
    t.status == TaskStatus::InProgress && (t.lease_stamp() as i128) < (now as i128) - (LEASE_TTL_SECS as i128)
}

fn record(t: &Task, kind: MemoryKind, value: &str, source: &str, now: i64) -> (m: Memory)
    ensures
        records(m, *t, kind, value@, source@, now),
{
    Memory {
        goal_id: copy_text(&t.goal_id),
        task_id: t.id.clone(),
        kind,
        value: String::from_str(value),
        source: String::from_str(source),
        created_at: now,
    }
}

impl Board {
    fn set_task(&mut self, i: usize, t: Task)
        requires
            i < old(self).tasks@.len(),
        ensures
            final(self).tasks@ == old(self).tasks@.update(i as int, t),
            final(self).goals == old(self).goals,
            final(self).memories == old(self).memories,
    {
        self.tasks.set(i, t);
    }

    fn requeue(&mut self, i: usize, now: i64)
        requires
            i < old(self).tasks@.len(),
        ensures
            requeued(old(self).tasks@[i as int], final(self).tasks@[i as int], now),
            final(self).tasks@ == old(self).tasks@.update(i as int, final(self).tasks@[i as int]),
            final(self).goals == old(self).goals,
            final(self).memories == old(self).memories,
    {
        let t = &self.tasks[i];
        let nt = Task {
            id: t.id.clone(),
            goal_id: copy_text(&t.goal_id),
            status: TaskStatus::Todo,
            priority: t.priority,
            agent_id: None,
            created_at: t.created_at,
            updated_at: Some(now),
            last_ping_at: t.last_ping_at,
            completed_at: t.completed_at,
        };
        self.set_task(i, nt);
    }

    fn renew(&mut self, i: usize, now: i64)
        requires
            i < old(self).tasks@.len(),
        ensures
            pinged(old(self).tasks@[i as int], final(self).tasks@[i as int], now),
            final(self).tasks@ == old(self).tasks@.update(i as int, final(self).tasks@[i as int]),
            final(self).goals == old(self).goals,
            final(self).memories == old(self).memories,
    {
        let t = &self.tasks[i];
        let nt = Task {
            id: t.id.clone(),
            goal_id: copy_text(&t.goal_id),
            status: t.status,
            priority: t.priority,
            agent_id: copy_text(&t.agent_id),
            created_at: t.created_at,
            updated_at: Some(now),
            last_ping_at: Some(now),
            completed_at: t.completed_at,
        };
        self.set_task(i, nt);
    }

    /// Returns every task whose lease ran out at `now` to the queue; hands
    /// back how many, and the goal ids of those tasks in store order.
    fn requeue_stale(&mut self, now: i64) -> (r: (usize, Vec<String>))
        ensures
            r.0 == count_stale(old(self).tasks@, now),
            r.1@.len() == stale_goals(old(self).tasks@, now).len(),
            forall|p: int| 0 <= p < r.1@.len() ==> (#[trigger] r.1@[p])@ == stale_goals(old(self).tasks@, now)[p],
            final(self).tasks@.len() == old(self).tasks@.len(),
            forall|j: int| 0 <= j < old(self).tasks@.len() ==> if stale(#[trigger] old(self).tasks@[j], now) {
                requeued(old(self).tasks@[j], final(self).tasks@[j], now)
            } else {
                final(self).tasks@[j] == old(self).tasks@[j]
            },
            final(self).goals == old(self).goals,
            final(self).memories == old(self).memories,
    {
        let ghost old_tasks = self.tasks@;
        let mut touched: Vec<String> = Vec::new();
        let mut n: usize = 0;
        let mut i: usize = 0;
        while i < self.tasks.len()
            invariant
                i <= self.tasks@.len(),
                self.tasks@.len() == old_tasks.len(),
                old_tasks == old(self).tasks@,
                self.goals == old(self).goals,
                self.memories == old(self).memories,
                n == count_stale(old_tasks.subrange(0, i as int), now),
                n <= i,
                touched@.len() == stale_goals(old_tasks.subrange(0, i as int), now).len(),
                forall|p: int| 0 <= p < touched@.len() ==> (#[trigger] touched@[p])@ == stale_goals(old_tasks.subrange(0, i as int), now)[p],
                forall|j: int| i <= j < old_tasks.len() ==> self.tasks@[j] == old_tasks[j],
                forall|j: int| 0 <= j < i ==> if stale(#[trigger] old_tasks[j], now) {
                    requeued(old_tasks[j], self.tasks@[j], now)
                } else {
                    self.tasks@[j] == old_tasks[j]
                },
            decreases old_tasks.len() - i,
        {
            proof {
                let pre = old_tasks.subrange(0, i as int + 1);
                assert(pre.drop_last() =~= old_tasks.subrange(0, i as int));
                assert(pre.last() == old_tasks[i as int]);
            }
            if is_stale(&self.tasks[i], now) {
                if let Some(g) = &self.tasks[i].goal_id {
                    let g2 = g.clone();
                    touched.push(g2);
                }
                self.requeue(i, now);
                n = n + 1;
            }
            i = i + 1;
        }
        assert(old_tasks.subrange(0, old_tasks.len() as int) =~= old_tasks);
        (n, touched)
    }

    /// Brings each goal whose id is listed in `gids` in line with the tasks.
    fn sync_goals(&mut self, gids: &Vec<String>, now: i64)
        ensures
            final(self).tasks == old(self).tasks,
            final(self).memories == old(self).memories,
            final(self).goals@.len() == old(self).goals@.len(),
            forall|k: int| 0 <= k < old(self).goals@.len() ==> {
                let g = #[trigger] old(self).goals@[k];
                if g.status != GoalStatus::Archived && text_list(gids@).contains(g.id@) {
                    final(self).goals@[k].id == g.id && final(self).goals@[k].status == goal_status_in(old(self).tasks@, g.id@)
                        && final(self).goals@[k].updated_at == now
                } else {
                    final(self).goals@[k] == g
                }
            },
    {
        let ghost old_goals = self.goals@;
        let ghost ids = text_list(gids@);
        let mut q: usize = 0;
        while q < gids.len()
            invariant
                q <= gids@.len(),
                ids == text_list(gids@),
                self.tasks == old(self).tasks,
                self.memories == old(self).memories,
                old_goals == old(self).goals@,
                self.goals@.len() == old_goals.len(),
                forall|k: int| 0 <= k < old_goals.len() ==> {
                    let g = #[trigger] old_goals[k];
                    if g.status != GoalStatus::Archived && ids.subrange(0, q as int).contains(g.id@) {
                        self.goals@[k].id == g.id && self.goals@[k].status == goal_status_in(self.tasks@, g.id@)
                            && self.goals@[k].updated_at == now
                    } else {
                        self.goals@[k] == g
                    }
                },
            decreases gids@.len() - q,
        {
            let ghost before = self.goals@;
            self.sync_goal(gids[q].as_str(), now);
            proof {
                assert(ids.subrange(0, q as int + 1) =~= ids.subrange(0, q as int).push(ids[q as int]));
                assert forall|k: int| 0 <= k < old_goals.len() implies {
                    let g = #[trigger] old_goals[k];
                    if g.status != GoalStatus::Archived && ids.subrange(0, q as int + 1).contains(g.id@) {
                        self.goals@[k].id == g.id && self.goals@[k].status == goal_status_in(self.tasks@, g.id@)
                            && self.goals@[k].updated_at == now
                    } else {
                        self.goals@[k] == g
                    }
                } by {
                    let g = old_goals[k];
                    let pre = ids.subrange(0, q as int);
                    if pre.contains(g.id@) {
                        let p = choose|p: int| 0 <= p < pre.len() && pre[p] == g.id@;
                        assert(ids.subrange(0, q as int + 1)[p] == g.id@);
                    }
                    let post = ids.subrange(0, q as int + 1);
                    if post.contains(g.id@) && !pre.contains(g.id@) {
                        let p = choose|p: int| 0 <= p < q + 1 && #[trigger] post[p] == g.id@;
                        if p < q {
                            assert(pre[p] == g.id@);
                        }
                    }
                    if ids[q as int] == g.id@ {
                        assert(ids.subrange(0, q as int + 1)[q as int] == g.id@);
                    }
                }
            }
            q = q + 1;
        }
        assert(ids.subrange(0, gids@.len() as int) =~= ids);
    }

    /// Returns every task whose lease ran out at `now` to the queue, then
    /// brings the goals of those tasks in line; returns how many it freed.
    pub fn release_stale_locks(&mut self, now: i64) -> (n: usize)
        ensures
            release_post(*old(self), *final(self), now, n),
            leases_consistent(old(self).tasks@) ==> leases_consistent(final(self).tasks@),
    {
        let ghost old_tasks = self.tasks@;
        let (n, touched) = self.requeue_stale(now);
        let ghost mid = self.tasks@;
        self.sync_goals(&touched, now);
        proof {
            assert(text_list(touched@) =~= stale_goals(old_tasks, now));
            assert forall|g: Seq<char>| #![auto] stale_goals(old_tasks, now).contains(g) <==> exists|j: int|
                0 <= j < old_tasks.len() && stale(old_tasks[j], now) && belongs(#[trigger] old_tasks[j], g) by {
                lemma_stale_goals(old_tasks, now, g);
            }
            if leases_consistent(old_tasks) {
                assert forall|j: int| 0 <= j < self.tasks@.len() implies lease_consistent(#[trigger] self.tasks@[j]) by {
                    assert(lease_consistent(old_tasks[j]));
                    if stale(old_tasks[j], now) {
                        assert(requeued(old_tasks[j], mid[j], now));
                    }
                }
            }
        }
        n
    }

    /// Leases the task named `task_ref` to `agent`, unless it is done or
    /// leased to another agent. Leasing a task one already holds renews it.
    pub fn ensure_in_progress(&mut self, task_ref: &str, agent: &str, now: i64) -> (r: Result<usize, TaskError>)
        ensures
            ensure_post(*old(self), *final(self), task_ref@, agent@, now, r),
            leases_consistent(old(self).tasks@) ==> leases_consistent(final(self).tasks@),
    {
        let i = match self.resolve_task(task_ref) {
            Some(i) => i,
            None => {
                return Err(TaskError::NotFound);
            },
        };
        if self.tasks[i].status == TaskStatus::Done {
            return Err(TaskError::AlreadyDone);
        }
        if self.tasks[i].status == TaskStatus::InProgress {
            if let Some(owner) = &self.tasks[i].agent_id {
                if !owner.as_str().is_empty() && !crate::text::text_eq(owner.as_str(), agent) {
                    return Err(TaskError::AlreadyOwned);
                }
            }
        }
        self.lease(i, agent, now);
        let gid = copy_text(&self.tasks[i].goal_id);
        self.sync_goal_of(&gid, now);
        Ok(i)
    }

    /// Marks the task named `task_ref` done, records the completion summary
    /// (`completed` when `summary` is blank) and brings its goal in line.
    pub fn complete(&mut self, task_ref: &str, agent: &str, summary: &str, now: i64) -> (r: Result<usize, TaskError>)
        ensures
            complete_post(*old(self), *final(self), task_ref@, agent@, summary@, now, r),
            leases_consistent(old(self).tasks@) ==> leases_consistent(final(self).tasks@),
    {
        let i = match self.resolve_task(task_ref) {
            Some(i) => i,
            None => {
                return Err(TaskError::NotFound);
            },
        };
        let text: &str = if is_blank(summary) {
            "completed"
        } else {
            summary
        };
        let t = &self.tasks[i];
        let m = record(t, MemoryKind::CompletionSummary, text, agent, now);
        let nt = Task {
            id: t.id.clone(),
            goal_id: copy_text(&t.goal_id),
            status: TaskStatus::Done,
            priority: t.priority,
            agent_id: None,
            created_at: t.created_at,
            updated_at: Some(now),
            last_ping_at: t.last_ping_at,
            completed_at: Some(now),
        };
        self.set_task(i, nt);
        let gid = copy_text(&self.tasks[i].goal_id);
        self.sync_goal_of(&gid, now);
        self.memories.push(m);
        proof {
            reveal_strlit("completed");
            assert(self.memories@.drop_last() =~= old(self).memories@);
        }
        Ok(i)
    }

    /// Returns the task named `task_ref` to the queue with its lease cleared,
    /// recording why; a blank reason is refused before anything changes.
    pub fn fail(&mut self, task_ref: &str, agent: &str, reason: &str, now: i64) -> (r: Result<usize, TaskError>)
        ensures
            fail_post(*old(self), *final(self), task_ref@, agent@, reason@, now, r),
            leases_consistent(old(self).tasks@) ==> leases_consistent(final(self).tasks@),
    {
        if is_blank(reason) {
            return Err(TaskError::MissingReason);
        }
        let i = match self.resolve_task(task_ref) {
            Some(i) => i,
            None => {
                return Err(TaskError::NotFound);
            },
        };
        let m = record(&self.tasks[i], MemoryKind::FailureReason, reason, agent, now);
        self.requeue(i, now);
        let gid = copy_text(&self.tasks[i].goal_id);
        self.sync_goal_of(&gid, now);
        self.memories.push(m);
        proof {
            assert(self.memories@.drop_last() =~= old(self).memories@);
        }
        Ok(i)
    }

    /// Renews the lease of the task named `task_ref`, which must be in
    /// progress.
    pub fn ping(&mut self, task_ref: &str, now: i64) -> (r: Result<usize, TaskError>)
        ensures
            ping_post(*old(self), *final(self), task_ref@, now, r),
            leases_consistent(old(self).tasks@) ==> leases_consistent(final(self).tasks@),
    {
        let i = match self.resolve_task(task_ref) {
            Some(i) => i,
            None => {
                return Err(TaskError::NotFound);
            },
        };
        if self.tasks[i].status != TaskStatus::InProgress {
            return Err(TaskError::NotInProgress);
        }
        self.renew(i, now);
        Ok(i)
    }

    /// Records a progress note on the task named `task_ref`, which must be in
    /// progress, and renews its lease.
    pub fn checkpoint(&mut self, task_ref: &str, agent: &str, note: &str, now: i64) -> (r: Result<usize, TaskError>)
        ensures
            checkpoint_post(*old(self), *final(self), task_ref@, agent@, note@, now, r),
            leases_consistent(old(self).tasks@) ==> leases_consistent(final(self).tasks@),
    {
        if is_blank(note) {
            return Err(TaskError::MissingNote);
        }
        let i = match self.resolve_task(task_ref) {
            Some(i) => i,
            None => {
                return Err(TaskError::NotFound);
            },
        };
        if self.tasks[i].status != TaskStatus::InProgress {
            return Err(TaskError::NotInProgress);
        }
        let m = record(&self.tasks[i], MemoryKind::Checkpoint, note, agent, now);
        self.renew(i, now);
        self.memories.push(m);
        proof {
            assert(self.memories@.drop_last() =~= old(self).memories@);
        }
        Ok(i)
    }
}

} // verus!
