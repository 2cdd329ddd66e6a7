//! Binding host claims to independently read task, session and source registration.
//!
//! The request names the task, its expected version, its current session and a
//! registered source; every value is checked against what the store holds, never
//! copied out of a host report. The host instance stays a caller report, not an
//! authenticated process identity.
use vstd::prelude::*;

use crate::error::{opt_view, AppError, AppResult};
use crate::sessions::{check_version, SessionState, TaskState};

verus! {

/// Values supplied by the adapter's current runtime, not copied out of a report.
#[derive(Debug, Clone)]
pub struct HostInstance<'a> {
    pub name: &'a str,
    pub version: &'a str,
    pub instance_id: &'a str,
}

/// An explicit metadata read request. It does not claim a task or read source files.
#[derive(Debug, Clone)]
pub struct HostContextRequest<'a> {
    pub task: &'a str,
    pub task_version: i64,
    pub session_id: &'a str,
    pub source_id: i64,
}

pub open spec fn not_current_reason() -> Seq<char> {
    "request must use the task's current Session"@
}

pub open spec fn foreign_session_reason() -> Seq<char> {
    "Session is ended or belongs to another task"@
}

pub open spec fn no_project_reason() -> Seq<char> {
    "task must explicitly belong to a project"@
}

/// Checks a task and session snapshot against a host context request: the task must
/// be at the requested version, the requested session must be the task's current,
/// live session, and the task must belong to a project, whose id is returned.
pub fn check_host_snapshot(
    request: &HostContextRequest,
    task: &TaskState,
    project_id: Option<i64>,
    session: &SessionState,
) -> (r: AppResult<i64>)
    ensures
        task.version != request.task_version ==> (r matches Err(e) && e.is_version(
            request.task_version,
            task.version,
        )),
        task.version == request.task_version && opt_view(task.current_session_id) != Some(
            request.session_id@,
        ) ==> (r matches Err(e) && e.is_invalid("hostContext"@, not_current_reason())),
        task.version == request.task_version && opt_view(task.current_session_id) == Some(
            request.session_id@,
        ) && (session.task_id != task.id || session.ended) ==> (r matches Err(e) && e.is_invalid(
            "hostContext"@,
            foreign_session_reason(),
        )),
        task.version == request.task_version && opt_view(task.current_session_id) == Some(
            request.session_id@,
        ) && session.task_id == task.id && !session.ended ==> match project_id {
            Some(p) => r == Ok::<i64, AppError>(p),
            None => r matches Err(e) && e.is_invalid("hostContext"@, no_project_reason()),
        },
{
    check_version(task.version, request.task_version)?;
    let current = match &task.current_session_id {
        Some(s) => crate::text::str_equal(s.as_str(), request.session_id),
        None => false,
    };
    if !current {
        return Err(AppError::invalid("hostContext", "request must use the task's current Session"));
    }
    if session.task_id != task.id || session.ended {
        return Err(AppError::invalid("hostContext", "Session is ended or belongs to another task"));
    }
    match project_id {
        Some(p) => Ok(p),
        None => Err(AppError::invalid("hostContext", "task must explicitly belong to a project")),
    }
}

pub open spec fn outside_selection_reason() -> Seq<char> {
    "source component is outside the task's explicit component selection"@
}

/// Whether a source attached to `component` lies outside a task's explicit
/// component selection. An empty selection admits every source.
pub open spec fn outside_selection(component: Option<i64>, selected: Seq<i64>) -> bool {
    match component {
        Some(c) => selected.len() > 0 && !selected.contains(c),
        None => false,
    }
}

/// Refuses a source whose component the task did not select.
pub fn check_source_component(component: Option<i64>, selected: &Vec<i64>) -> (r: AppResult<()>)
    ensures
        outside_selection(component, selected@) ==> (r matches Err(e) && e.is_invalid(
            "hostContext"@,
            outside_selection_reason(),
        )),
        !outside_selection(component, selected@) ==> r is Ok,
{
    if let Some(c) = component {
        if selected.len() > 0 {
            let mut i: usize = 0;
            while i < selected.len()
                invariant
                    component == Some(c),
                    i <= selected@.len(),
                    forall|k: int| 0 <= k < i ==> selected@[k] != c,
                decreases selected@.len() - i,
            {
                if selected[i] == c {
                    assert(selected@[i as int] == c);
                    return Ok(());
                }
                i = i + 1;
            }
            return Err(
                AppError::invalid(
                    "hostContext",
                    "source component is outside the task's explicit component selection",
                ),
            );
        }
    }
    Ok(())
}

pub open spec fn snapshot_changed_reason() -> Seq<char> {
    "Task or Session changed during context binding"@
}

pub open spec fn source_changed_reason() -> Seq<char> {
    "project source metadata changed during context binding"@
}

pub open spec fn binding_changed_reason() -> Seq<char> {
    "request context changed during host assessment"@
}

/// What a second read found, compared with the first one of the same binding.
#[derive(Debug, Clone)]
pub enum Reread {
    /// The task and session snapshot differ from the first read.
    Snapshot,
    /// The project source registration differs from the first read.
    Source,
    /// The binding recomputed after the assessment differs from the expected one.
    Binding,
}

pub open spec fn reread_reason(what: Reread) -> Seq<char> {
    match what {
        Reread::Snapshot => snapshot_changed_reason(),
        Reread::Source => source_changed_reason(),
        Reread::Binding => binding_changed_reason(),
    }
}

/// Refuses a binding whose inputs changed between two reads.
pub fn check_reread(what: Reread, unchanged: bool) -> (r: AppResult<()>)
    ensures
        unchanged ==> r is Ok,
        !unchanged ==> (r matches Err(e) && e.is_invalid("hostContext"@, reread_reason(what))),
{
    if unchanged {
        return Ok(());
    }
    match what {
        Reread::Snapshot => Err(
            AppError::invalid("hostContext", "Task or Session changed during context binding"),
        ),
        Reread::Source => Err(
            AppError::invalid(
                "hostContext",
                "project source metadata changed during context binding",
            ),
        ),
        Reread::Binding => Err(
            AppError::invalid("hostContext", "request context changed during host assessment"),
        ),
    }
}

pub open spec fn context_clock_reason() -> Seq<char> {
    "clock moved backwards during bound host assessment"@
}

/// Refuses an assessment during which the clock moved backwards.
pub fn check_context_clock(started: u64, ended: u64) -> (r: AppResult<()>)
    ensures
        ended >= started ==> r is Ok,
        ended < started ==> (r matches Err(e) && e.is_invalid(
            "hostContext"@,
            context_clock_reason(),
        )),
{
    if ended < started {
        Err(AppError::invalid("hostContext", "clock moved backwards during bound host assessment"))
    } else {
        Ok(())
    }
}

} // verus!
