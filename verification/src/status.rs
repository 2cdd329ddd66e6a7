//! The seven business states of a task and the single status-change entry point.
//!
//! Any state may move to any other state on the user's instruction; there is no
//! workflow gate. A request for the current state is accepted after the
//! compare-and-swap check and writes nothing.
use vstd::prelude::*;

use crate::error::{AppError, AppResult};
use crate::text::str_equal;

verus! {

#[derive(Debug, Clone, Copy, PartialEq, Eq, Structural)]
pub enum TaskStatus {
    Backlog,
    Todo,
    InProgress,
    InReview,
    Blocked,
    Done,
    Cancelled,
}

/// The wire spelling of each state.
pub open spec fn status_name(s: TaskStatus) -> Seq<char> {
    match s {
        TaskStatus::Backlog => "backlog"@,
        TaskStatus::Todo => "todo"@,
        TaskStatus::InProgress => "in_progress"@,
        TaskStatus::InReview => "in_review"@,
        TaskStatus::Blocked => "blocked"@,
        TaskStatus::Done => "done"@,
        TaskStatus::Cancelled => "cancelled"@,
    }
}

/// The state spelled exactly `t`, if any.
pub open spec fn spec_parse_status(t: Seq<char>) -> Option<TaskStatus> {
    if t == "backlog"@ {
        Some(TaskStatus::Backlog)
    } else if t == "todo"@ {
        Some(TaskStatus::Todo)
    } else if t == "in_progress"@ {
        Some(TaskStatus::InProgress)
    } else if t == "in_review"@ {
        Some(TaskStatus::InReview)
    } else if t == "blocked"@ {
        Some(TaskStatus::Blocked)
    } else if t == "done"@ {
        Some(TaskStatus::Done)
    } else if t == "cancelled"@ {
        Some(TaskStatus::Cancelled)
    } else {
        None
    }
}

/// `active` covers every state but the two terminal ones.
pub open spec fn spec_is_active(s: TaskStatus) -> bool {
    s != TaskStatus::Done && s != TaskStatus::Cancelled
}

impl TaskStatus {
    /// The state of a newly created task: `todo`.
    pub fn initial() -> (r: TaskStatus)
        ensures
            r == TaskStatus::Todo,
    {
        TaskStatus::Todo
    }

    pub fn as_str(&self) -> (r: &'static str)
        ensures
            r@ == status_name(*self),
    {
        match self {
            TaskStatus::Backlog => "backlog",
            TaskStatus::Todo => "todo",
            TaskStatus::InProgress => "in_progress",
            TaskStatus::InReview => "in_review",
            TaskStatus::Blocked => "blocked",
            TaskStatus::Done => "done",
            TaskStatus::Cancelled => "cancelled",
        }
    }

    /// The state spelled exactly `text` (no trimming, no case folding).
    pub fn parse(text: &str) -> (r: Option<TaskStatus>)
        ensures
            r == spec_parse_status(text@),
    {
        if str_equal(text, "backlog") {
            Some(TaskStatus::Backlog)
        } else if str_equal(text, "todo") {
            Some(TaskStatus::Todo)
        } else if str_equal(text, "in_progress") {
            Some(TaskStatus::InProgress)
        } else if str_equal(text, "in_review") {
            Some(TaskStatus::InReview)
        } else if str_equal(text, "blocked") {
            Some(TaskStatus::Blocked)
        } else if str_equal(text, "done") {
            Some(TaskStatus::Done)
        } else if str_equal(text, "cancelled") {
            Some(TaskStatus::Cancelled)
        } else {
            None
        }
    }

    /// Whether the state counts as active (neither done nor cancelled).
    pub fn is_active(&self) -> (r: bool)
        ensures
            r == spec_is_active(*self),
    {
        !matches!(self, TaskStatus::Done | TaskStatus::Cancelled)
    }
}

pub open spec fn status_reason() -> Seq<char> {
    "expected backlog, todo, in_progress, in_review, blocked, done or cancelled"@
}

/// Parses a requested state; anything but an exact state name is an input error
/// on `status`.
pub fn parse_status(text: &str) -> (r: AppResult<TaskStatus>)
    ensures
        match spec_parse_status(text@) {
            Some(s) => r == Ok::<TaskStatus, AppError>(s),
            None => r matches Err(e) && e.is_invalid("status"@, status_reason()),
        },
{
    match TaskStatus::parse(text) {
        Some(s) => Ok(s),
        None => Err(
            AppError::invalid(
                "status",
                "expected backlog, todo, in_progress, in_review, blocked, done or cancelled",
            ),
        ),
    }
}

/// The state an earlier schema's stored status maps to: `open` becomes `todo`,
/// `pending_release` becomes `in_review`, `closed` becomes `done` when the closure
/// outcome was `completed` and `cancelled` otherwise; `in_progress` and `blocked` stay.
pub open spec fn spec_legacy_status(old: Seq<char>, outcome: Option<Seq<char>>) -> Option<TaskStatus> {
    if old == "open"@ {
        Some(TaskStatus::Todo)
    } else if old == "pending_release"@ {
        Some(TaskStatus::InReview)
    } else if old == "closed"@ {
        if outcome == Some("completed"@) {
            Some(TaskStatus::Done)
        } else {
            Some(TaskStatus::Cancelled)
        }
    } else if old == "in_progress"@ {
        Some(TaskStatus::InProgress)
    } else if old == "blocked"@ {
        Some(TaskStatus::Blocked)
    } else {
        None
    }
}

pub fn legacy_status(old: &str, outcome: Option<&str>) -> (r: Option<TaskStatus>)
    ensures
        r == spec_legacy_status(
            old@,
            match outcome {
                Some(o) => Some(o@),
                None => None,
            },
        ),
{
    if str_equal(old, "open") {
        Some(TaskStatus::Todo)
    } else if str_equal(old, "pending_release") {
        Some(TaskStatus::InReview)
    } else if str_equal(old, "closed") {
        let completed = match outcome {
            Some(o) => str_equal(o, "completed"),
            None => false,
        };
        if completed {
            Some(TaskStatus::Done)
        } else {
            Some(TaskStatus::Cancelled)
        }
    } else if str_equal(old, "in_progress") {
        Some(TaskStatus::InProgress)
    } else if str_equal(old, "blocked") {
        Some(TaskStatus::Blocked)
    } else {
        None
    }
}

/// A task-list status filter: `active` or one exact state.
#[derive(Debug, Clone, Copy, PartialEq, Eq, Structural)]
pub enum StatusFilter {
    Active,
    Only(TaskStatus),
}

impl StatusFilter {
    pub open spec fn spec_admits(self, s: TaskStatus) -> bool {
        match self {
            StatusFilter::Active => spec_is_active(s),
            StatusFilter::Only(t) => t == s,
        }
    }

    /// Whether a task in state `s` passes the filter.
    pub fn admits(&self, s: TaskStatus) -> (r: bool)
        ensures
            r == self.spec_admits(s),
    {
        match self {
            StatusFilter::Active => s.is_active(),
            StatusFilter::Only(t) => *t == s,
        }
    }

    /// The states the filter admits, in declaration order (used to build the query).
    pub fn states(&self) -> (r: Vec<TaskStatus>)
        ensures
            forall|s: TaskStatus| self.spec_admits(s) <==> r@.contains(s),
    {
        match self {
            StatusFilter::Active => {
                let r = vec![
                    TaskStatus::Backlog,
                    TaskStatus::Todo,
                    TaskStatus::InProgress,
                    TaskStatus::InReview,
                    TaskStatus::Blocked,
                ];
                proof {
                    assert forall|s: TaskStatus| self.spec_admits(s) <==> r@.contains(s) by {
                        if self.spec_admits(s) {
                            match s {
                                TaskStatus::Backlog => assert(r@[0] == s),
                                TaskStatus::Todo => assert(r@[1] == s),
                                TaskStatus::InProgress => assert(r@[2] == s),
                                TaskStatus::InReview => assert(r@[3] == s),
                                TaskStatus::Blocked => assert(r@[4] == s),
                                _ => {},
                            }
                        }
                    }
                }
                r
            },
            StatusFilter::Only(t) => {
                let r = vec![*t];
                proof {
                    assert(r@[0] == *t);
                }
                r
            },
        }
    }
}

pub open spec fn spec_parse_filter(t: Seq<char>) -> Option<StatusFilter> {
    if t == "active"@ {
        Some(StatusFilter::Active)
    } else {
        match spec_parse_status(t) {
            Some(s) => Some(StatusFilter::Only(s)),
            None => None,
        }
    }
}

/// Parses a list filter: `active`, or an exact state name.
pub fn parse_status_filter(text: &str) -> (r: AppResult<StatusFilter>)
    ensures
        match spec_parse_filter(text@) {
            Some(f) => r == Ok::<StatusFilter, AppError>(f),
            None => r matches Err(e) && e.is_invalid("status"@, status_reason()),
        },
{
    if str_equal(text, "active") {
        Ok(StatusFilter::Active)
    } else {
        match parse_status(text) {
            Ok(s) => Ok(StatusFilter::Only(s)),
            Err(e) => Err(e),
        }
    }
}

/// What a status request does to the task.
#[derive(Debug, Clone, Copy, PartialEq, Eq, Structural)]
pub enum StatusChange {
    /// The task already has the requested state: nothing is written.
    Unchanged,
    /// The state moves from `previous` to `status` and the version becomes `version`.
    Changed { previous: TaskStatus, status: TaskStatus, version: i64 },
}

/// Decides a status request against the task's current state and version.
///
/// A stale `expected` version is a conflict whatever the states; otherwise every
/// pair of states is allowed, and the same state is a no-op.
pub fn plan_status_change(current: TaskStatus, version: i64, expected: i64, requested: TaskStatus) -> (r: AppResult<StatusChange>)
    ensures
        match spec_status_outcome(current, version, expected, requested) {
            Some(c) => r == Ok::<StatusChange, AppError>(c),
            None => r is Err,
        },
        expected != version ==> (r matches Err(e) && e.is_version(expected, version)),
        expected == version && requested != current && version == i64::MAX ==> (r matches Err(e)
            && e.is_constraint("tasks.version"@)),
{
    if expected != version {
        return Err(AppError::version(expected, version));
    }
    if requested == current {
        return Ok(StatusChange::Unchanged);
    }
    match version.checked_add(1) {
        Some(next) => Ok(StatusChange::Changed { previous: current, status: requested, version: next }),
        None => Err(AppError::constraint("tasks.version")),
    }
}

/// The state names (and `active`) are pairwise different texts.
proof fn lemma_names_distinct()
    ensures
        "backlog"@ != "todo"@, "backlog"@ != "in_progress"@, "backlog"@ != "in_review"@,
        "backlog"@ != "blocked"@, "backlog"@ != "done"@, "backlog"@ != "cancelled"@,
        "todo"@ != "in_progress"@, "todo"@ != "in_review"@, "todo"@ != "blocked"@,
        "todo"@ != "done"@, "todo"@ != "cancelled"@,
        "in_progress"@ != "in_review"@, "in_progress"@ != "blocked"@,
        "in_progress"@ != "done"@, "in_progress"@ != "cancelled"@,
        "in_review"@ != "blocked"@, "in_review"@ != "done"@, "in_review"@ != "cancelled"@,
        "blocked"@ != "done"@, "blocked"@ != "cancelled"@,
        "done"@ != "cancelled"@,
        "active"@ != "backlog"@, "active"@ != "todo"@, "active"@ != "in_progress"@,
        "active"@ != "in_review"@, "active"@ != "blocked"@, "active"@ != "done"@,
        "active"@ != "cancelled"@,
{
    reveal_strlit("active");
    reveal_strlit("backlog");
    reveal_strlit("todo");
    reveal_strlit("in_progress");
    reveal_strlit("in_review");
    reveal_strlit("blocked");
    reveal_strlit("done");
    reveal_strlit("cancelled");
    assert("in_progress"@.len() == 11);
    assert("in_review"@.len() == 9);
    assert("active"@.len() == 6);
    assert("backlog"@[1] != "blocked"@[1]);
    assert("todo"@[0] != "done"@[0]);
    assert("in_review"@[0] != "cancelled"@[0]);
}

/// Every state's spelling parses back to that state.
pub proof fn law_status_name_round_trip(s: TaskStatus)
    ensures
        spec_parse_status(status_name(s)) == Some(s),
{
    lemma_names_distinct();
}

/// `active` is not itself a state name, and it admits exactly the non-terminal states.
pub proof fn law_active_filter(s: TaskStatus)
    ensures
        spec_parse_status("active"@) is None,
        StatusFilter::Active.spec_admits(s) <==> (s != TaskStatus::Done && s != TaskStatus::Cancelled),
        spec_parse_filter(status_name(s)) == Some(StatusFilter::Only(s)),
{
    lemma_names_distinct();
}

/// With a current version, every ordered pair of states is an allowed move: the
/// same state writes nothing, a different state bumps the version by exactly one.
pub proof fn law_any_status_reaches_any(from: TaskStatus, to: TaskStatus, version: i64)
    requires
        i64::MIN < version < i64::MAX,
    ensures
        from == to ==> spec_status_outcome(from, version, version, to) == Some(StatusChange::Unchanged),
        from != to ==> spec_status_outcome(from, version, version, to) == Some(
            StatusChange::Changed { previous: from, status: to, version: (version + 1) as i64 },
        ),
        spec_status_outcome(from, version, (version - 1) as i64, to) is None,
{
}

/// The successful outcome of a status request, `None` when it is refused.
pub open spec fn spec_status_outcome(current: TaskStatus, version: i64, expected: i64, requested: TaskStatus) -> Option<StatusChange> {
    if expected != version || (requested != current && version == i64::MAX) {
        None
    } else if requested == current {
        Some(StatusChange::Unchanged)
    } else {
        Some(StatusChange::Changed { previous: current, status: requested, version: (version + 1) as i64 })
    }
}

} // verus!
