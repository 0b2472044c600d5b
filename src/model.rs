use vstd::prelude::*;
use crate::text::text_eq;

verus! {

/// Where a task stands. Only `Todo`, `InProgress` and `Done` are reached by
/// the transitions of this library; the others are kept for stores that
/// already hold them.
#[derive(Clone, Copy, Debug, PartialEq, Eq, Structural)]
pub enum TaskStatus {
    Todo,
    InProgress,
    Review,
    Done,
    Failed,
    Blocked,
    Cancelled,
}

/// A goal's status, derived from its tasks; `Archived` is set by an operator
/// and is terminal.
#[derive(Clone, Copy, Debug, PartialEq, Eq, Structural)]
pub enum GoalStatus {
    Todo,
    Ongoing,
    Review,
    Done,
    Archived,
}

/// Scheduling priority; `Unranked` stands for a value the store holds that
/// is none of the four known ones, and is scheduled after all of them.
#[derive(Clone, Copy, Debug, PartialEq, Eq, Structural)]
pub enum Priority {
    Critical,
    High,
    Medium,
    Low,
    Unranked,
}

/// The kinds of event that the task lifecycle appends to the memory log.
#[derive(Clone, Copy, Debug, PartialEq, Eq, Structural)]
pub enum MemoryKind {
    CompletionSummary,
    FailureReason,
    Checkpoint,
}

pub open spec fn rank(p: Priority) -> int {
    match p {
        Priority::Critical => 4,
        Priority::High => 3,
        Priority::Medium => 2,
        Priority::Low => 1,
        Priority::Unranked => 0,
    }
}

impl Priority {
    /// The scheduling rank: higher is claimed first.
    pub fn rank(&self) -> (r: u8)
        ensures
            r as int == rank(*self),
    {
        match self {
            Priority::Critical => 4,
            Priority::High => 3,
            Priority::Medium => 2,
            Priority::Low => 1,
            Priority::Unranked => 0,
        }
    }
}

/// One unit of work.
#[derive(Clone, Debug)]
pub struct Task {
    pub id: String,
    pub goal_id: Option<String>,
    pub status: TaskStatus,
    pub priority: Priority,
    /// The lease holder; present exactly while the task is in progress.
    pub agent_id: Option<String>,
    pub created_at: i64,
    pub updated_at: Option<i64>,
    /// The lease heartbeat.
    pub last_ping_at: Option<i64>,
    pub completed_at: Option<i64>,
}

/// A goal groups tasks; its status follows from theirs.
#[derive(Clone, Debug)]
pub struct Goal {
    pub id: String,
    pub status: GoalStatus,
    pub updated_at: i64,
}

/// An entry of the append-only event log kept beside tasks and goals.
#[derive(Clone, Debug)]
pub struct Memory {
    pub goal_id: Option<String>,
    pub task_id: String,
    pub kind: MemoryKind,
    pub value: String,
    pub source: String,
    pub created_at: i64,
}

pub open spec fn opt_text(o: Option<String>) -> Option<Seq<char>> {
    match o {
        Some(s) => Some(s@),
        None => None,
    }
}

/// The age key used for first-in first-out order among equal priorities.
pub open spec fn queue_stamp(t: Task) -> int {
    match t.updated_at {
        Some(u) => u as int,
        None => t.created_at as int,
    }
}

/// The instant a lease was last renewed: the heartbeat, else the last update,
/// else the creation.
pub open spec fn lease_stamp(t: Task) -> int {
    match t.last_ping_at {
        Some(p) => p as int,
        None => queue_stamp(t),
    }
}

/// The lease rule: an agent is recorded exactly while the task is in progress.
pub open spec fn lease_consistent(t: Task) -> bool {
    t.agent_id.is_some() <==> t.status == TaskStatus::InProgress
}

impl Task {
    pub fn queue_stamp(&self) -> (r: i64)
        ensures
            r as int == queue_stamp(*self),
    {
        match self.updated_at {
            Some(u) => u,
            None => self.created_at,
        }
    }

    pub fn lease_stamp(&self) -> (r: i64)
        ensures
            r as int == lease_stamp(*self),
    {
        match self.last_ping_at {
            Some(p) => p,
            None => self.queue_stamp(),
        }
    }
}

impl MemoryKind {
    /// The key under which the event is stored.
    pub fn key(&self) -> (r: &'static str)
        ensures
            r@ == memory_key(*self),
    {
        match self {
            MemoryKind::CompletionSummary => "completion_summary",
            MemoryKind::FailureReason => "failure_reason",
            MemoryKind::Checkpoint => "checkpoint",
        }
    }
}

pub open spec fn memory_key(k: MemoryKind) -> Seq<char> {
    match k {
        MemoryKind::CompletionSummary => "completion_summary"@,
        MemoryKind::FailureReason => "failure_reason"@,
        MemoryKind::Checkpoint => "checkpoint"@,
    }
}

pub open spec fn task_status_text(s: TaskStatus) -> Seq<char> {
    match s {
        TaskStatus::Todo => "todo"@,
        TaskStatus::InProgress => "in_progress"@,
        TaskStatus::Review => "review"@,
        TaskStatus::Done => "done"@,
        TaskStatus::Failed => "failed"@,
        TaskStatus::Blocked => "blocked"@,
        TaskStatus::Cancelled => "cancelled"@,
    }
}

pub open spec fn goal_status_text(s: GoalStatus) -> Seq<char> {
    match s {
        GoalStatus::Todo => "todo"@,
        GoalStatus::Ongoing => "ongoing"@,
        GoalStatus::Review => "review"@,
        GoalStatus::Done => "done"@,
        GoalStatus::Archived => "archived"@,
    }
}

pub open spec fn priority_text(p: Priority) -> Seq<char> {
    match p {
        Priority::Critical => "critical"@,
        Priority::High => "high"@,
        Priority::Medium => "medium"@,
        Priority::Low => "low"@,
        Priority::Unranked => ""@,
    }
}

impl TaskStatus {
    /// The status as the store writes it.
    pub fn as_str(&self) -> (r: &'static str)
        ensures
            r@ == task_status_text(*self),
    {
        match self {
            TaskStatus::Todo => "todo",
            TaskStatus::InProgress => "in_progress",
            TaskStatus::Review => "review",
            TaskStatus::Done => "done",
            TaskStatus::Failed => "failed",
            TaskStatus::Blocked => "blocked",
            TaskStatus::Cancelled => "cancelled",
        }
    }

    /// Reads a status the store wrote; `None` for any other text.
    pub fn parse(s: &str) -> (r: Option<TaskStatus>)
        ensures
            match r {
                Some(x) => s@ == task_status_text(x),
                None => forall|x: TaskStatus| s@ != task_status_text(x),
            },
    {
        if text_eq(s, "todo") {
            Some(TaskStatus::Todo)
        } else if text_eq(s, "in_progress") {
            Some(TaskStatus::InProgress)
        } else if text_eq(s, "review") {
            Some(TaskStatus::Review)
        } else if text_eq(s, "done") {
            Some(TaskStatus::Done)
        } else if text_eq(s, "failed") {
            Some(TaskStatus::Failed)
        } else if text_eq(s, "blocked") {
            Some(TaskStatus::Blocked)
        } else if text_eq(s, "cancelled") {
            Some(TaskStatus::Cancelled)
        } else {
            None
        }
    }
}

impl GoalStatus {
    /// The status as the store writes it.
    pub fn as_str(&self) -> (r: &'static str)
        ensures
            r@ == goal_status_text(*self),
    {
        match self {
            GoalStatus::Todo => "todo",
            GoalStatus::Ongoing => "ongoing",
            GoalStatus::Review => "review",
            GoalStatus::Done => "done",
            GoalStatus::Archived => "archived",
        }
    }

    /// Reads a status the store wrote; `None` for any other text.
    pub fn parse(s: &str) -> (r: Option<GoalStatus>)
        ensures
            match r {
                Some(x) => s@ == goal_status_text(x),
                None => forall|x: GoalStatus| s@ != goal_status_text(x),
            },
    {
        if text_eq(s, "todo") {
            Some(GoalStatus::Todo)
        } else if text_eq(s, "ongoing") {
            Some(GoalStatus::Ongoing)
        } else if text_eq(s, "review") {
            Some(GoalStatus::Review)
        } else if text_eq(s, "done") {
            Some(GoalStatus::Done)
        } else if text_eq(s, "archived") {
            Some(GoalStatus::Archived)
        } else {
            None
        }
    }
}

impl Priority {
    /// Reads a priority; any text but the four known ones is unranked.
    pub fn parse(s: &str) -> (r: Priority)
        ensures
            r != Priority::Unranked ==> s@ == priority_text(r),
            r == Priority::Unranked ==> s@ != "critical"@ && s@ != "high"@ && s@ != "medium"@ && s@ != "low"@,
    {
        if text_eq(s, "critical") {
            Priority::Critical
        } else if text_eq(s, "high") {
            Priority::High
        } else if text_eq(s, "medium") {
            Priority::Medium
        } else if text_eq(s, "low") {
            Priority::Low
        } else {
            Priority::Unranked
        }
    }
}

} // verus!
