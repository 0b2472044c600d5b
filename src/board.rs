use vstd::prelude::*;
use vstd::string::*;
use crate::model::{lease_consistent, opt_text, queue_stamp, rank, Goal, GoalStatus, Memory, Task, TaskStatus};
use crate::sync::{goal_status_for, goal_status_in, statuses_for_goal};
use crate::text::{has_prefix, starts_with, text_eq};

verus! {

/// The durable store as the transitions see it: goals, tasks and the memory
/// log, each in store order.
pub struct Board {
    pub goals: Vec<Goal>,
    pub tasks: Vec<Task>,
    pub memories: Vec<Memory>,
}

/// What a claim hands back. Losing a race and finding no work are outcomes,
/// not errors.
#[derive(Clone, Copy, Debug, PartialEq, Eq, Structural)]
pub enum ClaimResult {
    NoTasks,
    RaceLost,
    Claimed(usize),
}

pub open spec fn opt_str(o: Option<&str>) -> Option<Seq<char>> {
    match o {
        Some(s) => Some(s@),
        None => None,
    }
}

// ---------------------------------------------------------------- lookup

pub open spec fn id_matches(id: Seq<char>, p: Seq<char>, exact: bool) -> bool {
    if exact {
        id == p
    } else {
        has_prefix(id, p)
    }
}

/// The first task at or after `i` whose id equals `p` (or begins with it).
pub open spec fn first_from(tasks: Seq<Task>, p: Seq<char>, exact: bool, i: int) -> Option<int>
    decreases tasks.len() - i,
{
    if i < 0 || i >= tasks.len() {
        None
    } else if id_matches(tasks[i].id@, p, exact) {
        Some(i)
    } else {
        first_from(tasks, p, exact, i + 1)
    }
}

/// Which task a reference names: the task whose id it is, else the first
/// whose id it begins.
pub open spec fn resolve(tasks: Seq<Task>, p: Seq<char>) -> Option<int> {
    match first_from(tasks, p, true, 0) {
        Some(i) => Some(i),
        None => first_from(tasks, p, false, 0),
    }
}

pub proof fn lemma_first_from_found(tasks: Seq<Task>, p: Seq<char>, exact: bool, i: int)
    requires
        0 <= i,
    ensures
        match first_from(tasks, p, exact, i) {
            Some(k) => i <= k < tasks.len() && id_matches(tasks[k].id@, p, exact),
            None => forall|k: int| i <= k < tasks.len() ==> !id_matches(#[trigger] tasks[k].id@, p, exact),
        },
    decreases tasks.len() - i,
{
    if i < tasks.len() && !id_matches(tasks[i].id@, p, exact) {
        lemma_first_from_found(tasks, p, exact, i + 1);
    }
}

/// Two task lists with the same ids, in the same order, resolve alike.
pub proof fn lemma_first_from_ids(a: Seq<Task>, b: Seq<Task>, p: Seq<char>, exact: bool, i: int)
    requires
        a.len() == b.len(),
        forall|k: int| 0 <= k < a.len() ==> (#[trigger] a[k]).id@ == b[k].id@,
    ensures
        first_from(a, p, exact, i) == first_from(b, p, exact, i),
    decreases a.len() - i,
{
    if 0 <= i < a.len() {
        lemma_first_from_ids(a, b, p, exact, i + 1);
    }
}

fn find_task(tasks: &Vec<Task>, p: &str, exact: bool) -> (r: Option<usize>)
    ensures
        match r {
            Some(i) => first_from(tasks@, p@, exact, 0) == Some(i as int),
            None => first_from(tasks@, p@, exact, 0) is None,
        },
{
    let mut i: usize = 0;
    while i < tasks.len()
        invariant
            i <= tasks@.len(),
            first_from(tasks@, p@, exact, 0) == first_from(tasks@, p@, exact, i as int),
        decreases tasks@.len() - i,
    {
        let hit = if exact {
            text_eq(tasks[i].id.as_str(), p)
        } else {
            starts_with(tasks[i].id.as_str(), p)
        };
        if hit {
            return Some(i);
        }
        i = i + 1;
    }
    None
}

// ---------------------------------------------------------------- selection

/// Some goal with id `gid` exists and is not archived.
pub open spec fn goal_open(goals: Seq<Goal>, gid: Seq<char>) -> bool {
    exists|k: int| 0 <= k < goals.len() && goals[k].id@ == gid && goals[k].status != GoalStatus::Archived
}

/// Whether `t` may be claimed under `filter`: it waits in `Todo`, and it
/// belongs to the filtered goal (or, without a filter, to no goal or to
/// one that is not archived).
pub open spec fn eligible(goals: Seq<Goal>, t: Task, filter: Option<Seq<char>>) -> bool {
    &&& t.status == TaskStatus::Todo
    &&& match filter {
        Some(g) => opt_text(t.goal_id) == Some(g) && goal_open(goals, g),
        None => match opt_text(t.goal_id) {
            Some(g) => goal_open(goals, g),
            None => true,
        },
    }
}

/// `a` is claimed no later than `b`: higher priority first, and among equal
/// priorities the older first.
pub open spec fn claimed_before(a: Task, b: Task) -> bool {
    rank(a.priority) > rank(b.priority) || (rank(a.priority) == rank(b.priority) && queue_stamp(a)
        <= queue_stamp(b))
}

/// Task `i` is the one a claim under `filter` must hand out.
pub open spec fn is_next(goals: Seq<Goal>, tasks: Seq<Task>, filter: Option<Seq<char>>, i: int) -> bool {
    &&& 0 <= i < tasks.len()
    &&& eligible(goals, tasks[i], filter)
    &&& forall|j: int| 0 <= j < tasks.len() && eligible(goals, #[trigger] tasks[j], filter) ==> claimed_before(tasks[i], tasks[j])
}

pub open spec fn none_eligible(goals: Seq<Goal>, tasks: Seq<Task>, filter: Option<Seq<char>>) -> bool {
    forall|j: int| 0 <= j < tasks.len() ==> !eligible(goals, #[trigger] tasks[j], filter)
}

// ---------------------------------------------------------------- transitions

/// `new` is `old` leased to `agent` at `now`.
pub open spec fn leased_to(old: Task, new: Task, agent: Seq<char>, now: i64) -> bool {
    &&& new.id == old.id
    &&& new.goal_id == old.goal_id
    &&& new.priority == old.priority
    &&& new.created_at == old.created_at
    &&& new.completed_at == old.completed_at
    &&& new.status == TaskStatus::InProgress
    &&& opt_text(new.agent_id) == Some(agent)
    &&& new.updated_at == Some(now)
    &&& new.last_ping_at == Some(now)
}

/// The goals after goal `gid` was brought in line with `tasks` at `now`:
/// each goal of that id that is not archived takes the derived status and
/// the time; every other goal is left as it was.
pub open spec fn goals_synced(old: Seq<Goal>, new: Seq<Goal>, tasks: Seq<Task>, gid: Option<Seq<char>>, now: i64) -> bool {
    &&& new.len() == old.len()
    &&& forall|k: int| 0 <= k < old.len() ==> {
        let g = #[trigger] old[k];
        if gid == Some(g.id@) && g.status != GoalStatus::Archived {
            new[k].id == g.id && new[k].status == goal_status_in(tasks, g.id@) && new[k].updated_at == now
        } else {
            new[k] == g
        }
    }
}

/// What a claim by `agent` under `filter` at `now` does to the store.
pub open spec fn claim_post(old: Board, new: Board, filter: Option<Seq<char>>, agent: Seq<char>, now: i64, r: ClaimResult) -> bool {
    match r {
        ClaimResult::NoTasks => none_eligible(old.goals@, old.tasks@, filter) && new == old,
        ClaimResult::RaceLost => false,
        ClaimResult::Claimed(i) => {
            &&& is_next(old.goals@, old.tasks@, filter, i as int)
            &&& new.tasks@.len() == old.tasks@.len()
            &&& leased_to(old.tasks@[i as int], new.tasks@[i as int], agent, now)
            &&& new.tasks@ == old.tasks@.update(i as int, new.tasks@[i as int])
            &&& goals_synced(old.goals@, new.goals@, new.tasks@, opt_text(old.tasks@[i as int].goal_id), now)
            &&& new.memories@ == old.memories@
        },
    }
}

pub open spec fn leases_consistent(tasks: Seq<Task>) -> bool {
    forall|j: int| 0 <= j < tasks.len() ==> lease_consistent(#[trigger] tasks[j])
}

pub(crate) fn copy_text(o: &Option<String>) -> (r: Option<String>)
    ensures
        r == *o,
{
    match o {
        Some(s) => Some(s.clone()),
        None => None,
    }
}

/// The post-commit check of a claim: reading the row back shows it in
/// progress under the claimer (a missing owner reads as the empty id).
pub open spec fn confirms(reread: Option<(TaskStatus, Option<String>)>, agent: Seq<char>) -> bool {
    match reread {
        Some((status, owner)) => status == TaskStatus::InProgress && match owner {
            Some(o) => o@ == agent,
            None => agent.len() == 0,
        },
        None => false,
    }
}

/// Settles a claim that the store carried out: `model` is what the claim
/// decided on the rows read inside the transaction, `updated_rows` what the
/// guarded update changed, `reread` the row read back after commit.
pub fn settle_claim(model: ClaimResult, updated_rows: usize, reread: Option<(TaskStatus, Option<String>)>, agent: &str) -> (r: ClaimResult)
    ensures
        r == match model {
            ClaimResult::Claimed(i) => if updated_rows == 0 || !confirms(reread, agent@) {
                ClaimResult::RaceLost
            } else {
                ClaimResult::Claimed(i)
            },
            _ => model,
        },
{
    match model {
        ClaimResult::Claimed(i) => {
            if updated_rows == 0 {
                return ClaimResult::RaceLost;
            }
            let held = match reread {
                Some((status, owner)) => status == TaskStatus::InProgress && match owner {
                    Some(o) => text_eq(o.as_str(), agent),
                    None => agent.unicode_len() == 0,
                },
                None => false,
            };
            if held {
                ClaimResult::Claimed(i)
            } else {
                ClaimResult::RaceLost
            }
        },
        _ => model,
    }
}

/// The first goal at or after `i` whose id equals `p` (or begins with it).
pub open spec fn first_goal_from(goals: Seq<Goal>, p: Seq<char>, exact: bool, i: int) -> Option<int>
    decreases goals.len() - i,
{
    if i < 0 || i >= goals.len() {
        None
    } else if id_matches(goals[i].id@, p, exact) {
        Some(i)
    } else {
        first_goal_from(goals, p, exact, i + 1)
    }
}

/// Which goal a reference names: the goal whose id it is, else the first
/// whose id it begins.
pub open spec fn resolve_goal(goals: Seq<Goal>, p: Seq<char>) -> Option<int> {
    match first_goal_from(goals, p, true, 0) {
        Some(i) => Some(i),
        None => first_goal_from(goals, p, false, 0),
    }
}

pub proof fn lemma_first_goal_found(goals: Seq<Goal>, p: Seq<char>, exact: bool, i: int)
    requires
        0 <= i,
    ensures
        match first_goal_from(goals, p, exact, i) {
            Some(k) => i <= k < goals.len() && id_matches(goals[k].id@, p, exact),
            None => forall|k: int| i <= k < goals.len() ==> !id_matches(#[trigger] goals[k].id@, p, exact),
        },
    decreases goals.len() - i,
{
    if i < goals.len() && !id_matches(goals[i].id@, p, exact) {
        lemma_first_goal_found(goals, p, exact, i + 1);
    }
}

fn find_goal(goals: &Vec<Goal>, p: &str, exact: bool) -> (r: Option<usize>)
    ensures
        match r {
            Some(i) => first_goal_from(goals@, p@, exact, 0) == Some(i as int),
            None => first_goal_from(goals@, p@, exact, 0) is None,
        },
{
    let mut i: usize = 0;
    while i < goals.len()
        invariant
            i <= goals@.len(),
            first_goal_from(goals@, p@, exact, 0) == first_goal_from(goals@, p@, exact, i as int),
        decreases goals@.len() - i,
    {
        let hit = if exact {
            text_eq(goals[i].id.as_str(), p)
        } else {
            starts_with(goals[i].id.as_str(), p)
        };
        if hit {
            return Some(i);
        }
        i = i + 1;
    }
    None
}

impl Board {
    pub fn new() -> (r: Board)
        ensures
            r.goals@.len() == 0,
            r.tasks@.len() == 0,
            r.memories@.len() == 0,
    {
        Board { goals: Vec::new(), tasks: Vec::new(), memories: Vec::new() }
    }

    /// The task that `task_ref` names: the one whose id it is, else the first
    /// whose id it begins.
    pub fn resolve_task(&self, task_ref: &str) -> (r: Option<usize>)
        ensures
            match r {
                Some(i) => resolve(self.tasks@, task_ref@) == Some(i as int) && i < self.tasks@.len(),
                None => resolve(self.tasks@, task_ref@) is None,
            },
    {
        proof {
            lemma_first_from_found(self.tasks@, task_ref@, true, 0);
            lemma_first_from_found(self.tasks@, task_ref@, false, 0);
        }
        match find_task(&self.tasks, task_ref, true) {
            Some(i) => Some(i),
            None => find_task(&self.tasks, task_ref, false),
        }
    }

    /// The goal that `goal_ref` names: the one whose id it is, else the
    /// first whose id it begins.
    pub fn resolve_goal(&self, goal_ref: &str) -> (r: Option<usize>)
        ensures
            match r {
                Some(i) => resolve_goal(self.goals@, goal_ref@) == Some(i as int) && i < self.goals@.len(),
                None => resolve_goal(self.goals@, goal_ref@) is None,
            },
    {
        proof {
            lemma_first_goal_found(self.goals@, goal_ref@, true, 0);
            lemma_first_goal_found(self.goals@, goal_ref@, false, 0);
        }
        match find_goal(&self.goals, goal_ref, true) {
            Some(i) => Some(i),
            None => find_goal(&self.goals, goal_ref, false),
        }
    }

    fn goal_open(&self, gid: &str) -> (r: bool)
        ensures
            r == goal_open(self.goals@, gid@),
    {
        let mut k: usize = 0;
        while k < self.goals.len()
            invariant
                k <= self.goals@.len(),
                forall|m: int| 0 <= m < k ==> !(self.goals@[m].id@ == gid@ && self.goals@[m].status != GoalStatus::Archived),
            decreases self.goals@.len() - k,
        {
            let g = &self.goals[k];
            if g.status != GoalStatus::Archived && text_eq(g.id.as_str(), gid) {
                return true;
            }
            k = k + 1;
        }
        false
    }

    fn is_eligible(&self, i: usize, filter: Option<&str>) -> (r: bool)
        requires
            i < self.tasks@.len(),
        ensures
            r == eligible(self.goals@, self.tasks@[i as int], opt_str(filter)),
    {
        let t = &self.tasks[i];
        if t.status != TaskStatus::Todo {
            return false;
        }
        match filter {
            Some(f) => match &t.goal_id {
                Some(g) => text_eq(g.as_str(), f) && self.goal_open(f),
                None => false,
            },
            None => match &t.goal_id {
                Some(g) => self.goal_open(g.as_str()),
                None => true,
            },
        }
    }

    /// The task a claim under `filter` would hand out: the eligible task of
    /// highest priority, the oldest among equals, the first in store order
    /// among those.
    pub fn select_candidate(&self, filter: Option<&str>) -> (r: Option<usize>)
        ensures
            match r {
                Some(i) => is_next(self.goals@, self.tasks@, opt_str(filter), i as int),
                None => none_eligible(self.goals@, self.tasks@, opt_str(filter)),
            },
    {
        let ghost f = opt_str(filter);
        let mut best: Option<usize> = None;
        let mut i: usize = 0;
        while i < self.tasks.len()
            invariant
                i <= self.tasks@.len(),
                f == opt_str(filter),
                match best {
                    Some(b) => b < i && eligible(self.goals@, self.tasks@[b as int], f) && forall|j: int|
                        0 <= j < i && eligible(self.goals@, #[trigger] self.tasks@[j], f) ==> claimed_before(self.tasks@[b as int], self.tasks@[j]),
                    None => forall|j: int| 0 <= j < i ==> !eligible(self.goals@, #[trigger] self.tasks@[j], f),
                },
            decreases self.tasks@.len() - i,
        {
            if self.is_eligible(i, filter) {
                match best {
                    None => {
                        best = Some(i);
                    },
                    Some(b) => {
                        let rb = self.tasks[b].priority.rank();
                        let ri = self.tasks[i].priority.rank();
                        if ri > rb || (ri == rb && self.tasks[i].queue_stamp() < self.tasks[b].queue_stamp()) {
                            proof {
                                let ti = self.tasks@[i as int];
                                let tb = self.tasks@[b as int];
                                assert forall|j: int|
                                    0 <= j < i && eligible(self.goals@, #[trigger] self.tasks@[j], f) implies claimed_before(ti, self.tasks@[j]) by {
                                    assert(claimed_before(tb, self.tasks@[j]));
                                }
                            }
                            best = Some(i);
                        } else {
                            assert(claimed_before(self.tasks@[b as int], self.tasks@[i as int]));
                        }
                    },
                }
            }
            i = i + 1;
        }
        best
    }

    /// Brings every goal of id `gid` that is not archived in line with its
    /// tasks, stamping it with `now`.
    pub fn sync_goal(&mut self, gid: &str, now: i64)
        ensures
            goals_synced(old(self).goals@, final(self).goals@, old(self).tasks@, Some(gid@), now),
            final(self).tasks == old(self).tasks,
            final(self).memories == old(self).memories,
    {
        let statuses = statuses_for_goal(&self.tasks, gid);
        let status = goal_status_for(&statuses);
        let ghost old_goals = self.goals@;
        let mut k: usize = 0;
        while k < self.goals.len()
            invariant
                k <= self.goals@.len(),
                self.goals@.len() == old_goals.len(),
                self.tasks == old(self).tasks,
                self.memories == old(self).memories,
                old_goals == old(self).goals@,
                status == goal_status_in(self.tasks@, gid@),
                forall|m: int| k <= m < old_goals.len() ==> self.goals@[m] == old_goals[m],
                forall|m: int| 0 <= m < k ==> {
                    let g = #[trigger] old_goals[m];
                    if Some(gid@) == Some(g.id@) && g.status != GoalStatus::Archived {
                        self.goals@[m].id == g.id && self.goals@[m].status == goal_status_in(self.tasks@, g.id@)
                            && self.goals@[m].updated_at == now
                    } else {
                        self.goals@[m] == g
                    }
                },
            decreases old_goals.len() - k,
        {
            let hit = self.goals[k].status != GoalStatus::Archived && text_eq(self.goals[k].id.as_str(), gid);
            if hit {
                let id = self.goals[k].id.clone();
                self.goals.set(k, Goal { id, status, updated_at: now });
            }
            k = k + 1;
        }
    }

    pub(crate) fn sync_goal_of(&mut self, gid: &Option<String>, now: i64)
        ensures
            goals_synced(old(self).goals@, final(self).goals@, old(self).tasks@, opt_text(*gid), now),
            final(self).tasks == old(self).tasks,
            final(self).memories == old(self).memories,
    {
        match gid {
            Some(g) => self.sync_goal(g.as_str(), now),
            None => {
                assert(self.goals@ =~= self.goals@);
            },
        }
    }

    /// Leases task `i` to `agent` at `now` if it still waits in `Todo`, as
    /// a compare-and-swap on its status; returns whether it did.
    fn lease_if_todo(&mut self, i: usize, agent: &str, now: i64) -> (r: bool)
        requires
            i < old(self).tasks@.len(),
        ensures
            r == (old(self).tasks@[i as int].status == TaskStatus::Todo),
            r ==> leased_to(old(self).tasks@[i as int], final(self).tasks@[i as int], agent@, now),
            r ==> final(self).tasks@ == old(self).tasks@.update(i as int, final(self).tasks@[i as int]),
            !r ==> final(self).tasks == old(self).tasks,
            final(self).goals == old(self).goals,
            final(self).memories == old(self).memories,
    {
        if self.tasks[i].status != TaskStatus::Todo {
            return false;
        }
        self.lease(i, agent, now);
        true
    }

    pub(crate) fn lease(&mut self, i: usize, agent: &str, now: i64)
        requires
            i < old(self).tasks@.len(),
        ensures
            leased_to(old(self).tasks@[i as int], final(self).tasks@[i as int], agent@, now),
            final(self).tasks@ == old(self).tasks@.update(i as int, final(self).tasks@[i as int]),
            final(self).goals == old(self).goals,
            final(self).memories == old(self).memories,
    {
        let t = &self.tasks[i];
        let nt = Task {
            id: t.id.clone(),
            goal_id: copy_text(&t.goal_id),
            status: TaskStatus::InProgress,
            priority: t.priority,
            agent_id: Some(String::from_str(agent)),
            created_at: t.created_at,
            updated_at: Some(now),
            last_ping_at: Some(now),
            completed_at: t.completed_at,
        };
        self.tasks.set(i, nt);
    }

    /// Hands the next eligible task under `filter` to `agent`: selects it,
    /// leases it only if it still waits, reads the lease back, and brings
    /// its goal in line.
    pub fn claim(&mut self, filter: Option<&str>, agent: &str, now: i64) -> (r: ClaimResult)
        ensures
            claim_post(*old(self), *final(self), opt_str(filter), agent@, now, r),
            leases_consistent(old(self).tasks@) ==> leases_consistent(final(self).tasks@),
    {
        let i = match self.select_candidate(filter) {
            Some(i) => i,
            None => {
                return ClaimResult::NoTasks;
            },
        };
        if !self.lease_if_todo(i, agent, now) {
            return ClaimResult::RaceLost;
        }
        let held = match &self.tasks[i].agent_id {
            Some(owner) => self.tasks[i].status == TaskStatus::InProgress && text_eq(owner.as_str(), agent),
            None => false,
        };
        if !held {
            return ClaimResult::RaceLost;
        }
        let gid = copy_text(&self.tasks[i].goal_id);
        self.sync_goal_of(&gid, now);
        ClaimResult::Claimed(i)
    }
}

} // verus!
