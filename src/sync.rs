use vstd::prelude::*;
use crate::model::{opt_text, GoalStatus, Task, TaskStatus};

verus! {

/// A goal's status as a function of its tasks' statuses:
/// no tasks gives `Todo`; any task in progress gives `Ongoing`; else any in
/// review gives `Review`; all done gives `Done`; some done gives `Ongoing`;
/// otherwise `Todo`.
pub open spec fn derive_status(s: Seq<TaskStatus>) -> GoalStatus {
    if s.len() == 0 {
        GoalStatus::Todo
    } else if s.contains(TaskStatus::InProgress) {
        GoalStatus::Ongoing
    } else if s.contains(TaskStatus::Review) {
        GoalStatus::Review
    } else if forall|i: int| 0 <= i < s.len() ==> s[i] == TaskStatus::Done {
        GoalStatus::Done
    } else if s.contains(TaskStatus::Done) {
        GoalStatus::Ongoing
    } else {
        GoalStatus::Todo
    }
}

/// Whether task `t` belongs to the goal with id `gid`.
pub open spec fn belongs(t: Task, gid: Seq<char>) -> bool {
    opt_text(t.goal_id) == Some(gid)
}

/// The statuses of the tasks of goal `gid`, in store order.
pub open spec fn statuses_of(tasks: Seq<Task>, gid: Seq<char>) -> Seq<TaskStatus>
    decreases tasks.len(),
{
    if tasks.len() == 0 {
        Seq::empty()
    } else {
        let rest = statuses_of(tasks.drop_last(), gid);
        if belongs(tasks.last(), gid) {
            rest.push(tasks.last().status)
        } else {
            rest
        }
    }
}

/// The status that goal `gid` has over the task list `tasks`.
pub open spec fn goal_status_in(tasks: Seq<Task>, gid: Seq<char>) -> GoalStatus {
    derive_status(statuses_of(tasks, gid))
}

/// Computes the derived status of a goal whose tasks have `statuses`.
pub fn goal_status_for(statuses: &Vec<TaskStatus>) -> (r: GoalStatus)
    ensures
        r == derive_status(statuses@),
{
    let n = statuses.len();
    if n == 0 {
        return GoalStatus::Todo;
    }
    let mut any_progress = false;
    let mut any_review = false;
    let mut any_done = false;
    let mut all_done = true;
    let mut i: usize = 0;
    while i < n
        invariant
            n == statuses@.len(),
            i <= n,
            any_progress <==> exists|k: int| 0 <= k < i && statuses@[k] == TaskStatus::InProgress,
            any_review <==> exists|k: int| 0 <= k < i && statuses@[k] == TaskStatus::Review,
            any_done <==> exists|k: int| 0 <= k < i && statuses@[k] == TaskStatus::Done,
            all_done <==> forall|k: int| 0 <= k < i ==> statuses@[k] == TaskStatus::Done,
        decreases n - i,
    {
        let s = statuses[i];
        match s {
            TaskStatus::InProgress => {
                any_progress = true;
            },
            TaskStatus::Review => {
                any_review = true;
            },
            TaskStatus::Done => {
                any_done = true;
            },
            _ => {},
        }
        if s != TaskStatus::Done {
            all_done = false;
        }
        i = i + 1;
    }
    proof {
        let s = statuses@;
        if any_progress {
            let k = choose|k: int| 0 <= k < n && s[k] == TaskStatus::InProgress;
            assert(s.contains(s[k]));
        }
        if any_review {
            let k = choose|k: int| 0 <= k < n && s[k] == TaskStatus::Review;
            assert(s.contains(s[k]));
        }
        if any_done {
            let k = choose|k: int| 0 <= k < n && s[k] == TaskStatus::Done;
            assert(s.contains(s[k]));
        }
    }
    if any_progress {
        GoalStatus::Ongoing
    } else if any_review {
        GoalStatus::Review
    } else if all_done {
        GoalStatus::Done
    } else if any_done {
        GoalStatus::Ongoing
    } else {
        GoalStatus::Todo
    }
}

/// Collects, in store order, the statuses of the tasks of goal `gid`.
pub fn statuses_for_goal(tasks: &Vec<Task>, gid: &str) -> (r: Vec<TaskStatus>)
    ensures
        r@ == statuses_of(tasks@, gid@),
{
    let mut out: Vec<TaskStatus> = Vec::new();
    let mut i: usize = 0;
    while i < tasks.len()
        invariant
            i <= tasks@.len(),
            out@ == statuses_of(tasks@.subrange(0, i as int), gid@),
        decreases tasks@.len() - i,
    {
        let t = &tasks[i];
        proof {
            let pre = tasks@.subrange(0, i as int + 1);
            assert(pre.drop_last() =~= tasks@.subrange(0, i as int));
            assert(pre.last() == tasks@[i as int]);
        }
        let mine = match &t.goal_id {
            Some(g) => crate::text::text_eq(g.as_str(), gid),
            None => false,
        };
        if mine {
            out.push(t.status);
        }
        i = i + 1;
    }
    assert(tasks@.subrange(0, tasks@.len() as int) =~= tasks@);
    out
}

} // verus!
