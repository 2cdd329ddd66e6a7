//! Sessions, notes, checkpoints and imports of a task.
//!
//! Sessions are independent of the business state: claiming, resuming, attaching,
//! binding and closing sessions never change the task's status, and the status
//! never gates them. Every write is a compare-and-swap on the task version and bumps
//! it by exactly one; a request that would change nothing writes nothing.
use vstd::prelude::*;

use crate::digest::{hex_lower, sha256_hex, spec_sha256};
use crate::error::{opt_view, AppError, AppResult, ErrorCode, ErrorDetails, SqliteFailure};
use crate::hooks::push_str;
use crate::outcome::{warning, Outcome, Warning, WarningDetails};
use crate::reference::{required, required_reason};
use crate::text::{chars_blank, chars_of, is_blank, owned, str_equal, string_from_chars, trim, trim_chars};

verus! {

/// The parts of a task that session decisions read.
#[derive(Debug, Clone)]
pub struct TaskState {
    pub id: i64,
    pub version: i64,
    pub current_session_id: Option<String>,
}

/// The parts of a session that session decisions read.
#[derive(Debug, Clone)]
pub struct SessionState {
    pub id: String,
    pub task_id: i64,
    pub source: Option<String>,
    pub external_session_id: Option<String>,
    pub record_path: Option<String>,
    pub ended: bool,
}

/// The version after a successful compare-and-swap on `expected`.
pub open spec fn bumped(version: i64, expected: i64) -> Option<i64> {
    if expected == version && version < i64::MAX {
        Some((version + 1) as i64)
    } else {
        None
    }
}

/// Compare-and-swap on a task version; the write's new version on success.
pub fn cas_bump(version: i64, expected: i64) -> (r: AppResult<i64>)
    ensures
        expected != version ==> (r matches Err(e) && e.is_version(expected, version)),
        expected == version && version == i64::MAX ==> (r matches Err(e) && e.is_constraint(
            "tasks.version"@,
        )),
        match bumped(version, expected) {
            Some(n) => r == Ok::<i64, AppError>(n),
            None => r is Err,
        },
{
    if expected != version {
        return Err(AppError::version(expected, version));
    }
    match version.checked_add(1) {
        Some(n) => Ok(n),
        None => Err(AppError::constraint("tasks.version")),
    }
}

/// Compare-and-swap without a write.
pub fn check_version(version: i64, expected: i64) -> (r: AppResult<()>)
    ensures
        expected == version ==> r is Ok,
        expected != version ==> (r matches Err(e) && e.is_version(expected, version)),
{
    if expected != version {
        return Err(AppError::version(expected, version));
    }
    Ok(())
}

fn opt_str(o: &Option<String>) -> (r: Option<&str>)
    ensures
        match o {
            Some(s) => r matches Some(x) && x@ == s@,
            None => r is None,
        },
{
    match o {
        Some(s) => Some(s.as_str()),
        None => None,
    }
}

fn opt_equal(a: &Option<String>, b: &Option<String>) -> (r: bool)
    ensures
        r == (opt_view(*a) == opt_view(*b)),
{
    match (a, b) {
        (Some(x), Some(y)) => str_equal(x.as_str(), y.as_str()),
        (None, None) => true,
        _ => false,
    }
}

fn opt_is(a: &Option<String>, b: &str) -> (r: bool)
    ensures
        r == (opt_view(*a) == Some(b@)),
{
    match a {
        Some(x) => str_equal(x.as_str(), b),
        None => false,
    }
}

/// What a claim does.
#[derive(Debug, Clone)]
pub enum ClaimPlan {
    /// The session is already the task's live current session: nothing is written.
    AlreadyCurrent,
    /// Create the session and make it current.
    Start { continued_from: Option<String>, version: i64 },
}

/// Decides a claim of `session_id` for `task`. `existing` is the stored session with
/// that id, if any. A live current session of the task is reclaimed as a no-op; any
/// other existing session is refused; a task that already has a current session can
/// only be taken over explicitly, and a take-over continues from it.
pub fn plan_claim(task: &TaskState, expected: i64, session_id: &str, take_over: bool, existing: Option<&SessionState>) -> (r: AppResult<ClaimPlan>)
    ensures
        expected != task.version ==> (r matches Err(e) && e.is_version(expected, task.version)),
        expected == task.version ==> match existing {
            Some(s) => if opt_view(task.current_session_id) == Some(session_id@) && s.task_id
                == task.id && !s.ended {
                r matches Ok(ClaimPlan::AlreadyCurrent)
            } else {
                r matches Err(e) && e.is_session(opt_view(task.current_session_id), session_id@)
            },
            None => true,
        },
        expected == task.version && existing is None && task.current_session_id is Some && !take_over
            ==> (r matches Err(e) && e.is_session(opt_view(task.current_session_id), session_id@)),
        expected == task.version && existing is None && (task.current_session_id is None
            || take_over) && task.version < i64::MAX ==> (r matches Ok(
            ClaimPlan::Start { continued_from: c, version: v },
        ) && v == task.version + 1 && opt_view(c) == (if take_over {
            opt_view(task.current_session_id)
        } else {
            None
        })),
        expected == task.version && existing is None && (task.current_session_id is None
            || take_over) && task.version == i64::MAX ==> (r matches Err(e) && e.is_constraint(
            "tasks.version"@,
        )),
{
    check_version(task.version, expected)?;
    if let Some(s) = existing {
        if opt_is(&task.current_session_id, session_id) && s.task_id == task.id && !s.ended {
            return Ok(ClaimPlan::AlreadyCurrent);
        }
        return Err(AppError::session(opt_str(&task.current_session_id), session_id));
    }
    if task.current_session_id.is_some() && !take_over {
        return Err(AppError::session(opt_str(&task.current_session_id), session_id));
    }
    let version = cas_bump(task.version, expected)?;
    let continued_from = if take_over {
        match &task.current_session_id {
            Some(c) => Some(c.clone()),
            None => None,
        }
    } else {
        None
    };
    Ok(ClaimPlan::Start { continued_from, version })
}

/// Picks the session a resume continues from: the named one, else the task's current
/// session. It must exist and differ from the new session.
pub fn resume_source(task: &TaskState, expected: i64, new_session_id: &str, from_session: Option<&str>) -> (r: AppResult<String>)
    ensures
        expected != task.version ==> (r matches Err(e) && e.is_version(expected, task.version)),
        expected == task.version ==> match (
            match from_session {
                Some(f) => Some(f@),
                None => opt_view(task.current_session_id),
            }
        ) {
            None => r matches Err(e) && e.is_invalid("fromSession"@, "resume source is required"@),
            Some(src) => if src == new_session_id@ {
                r matches Err(e) && e.is_invalid("session"@, "must differ from resume source"@)
            } else {
                r matches Ok(s) && s@ == src
            },
        },
{
    check_version(task.version, expected)?;
    let source: String = match from_session {
        Some(f) => owned(f),
        None => match &task.current_session_id {
            Some(c) => c.clone(),
            None => {
                return Err(AppError::invalid("fromSession", "resume source is required"));
            },
        },
    };
    if str_equal(source.as_str(), new_session_id) {
        return Err(AppError::invalid("session", "must differ from resume source"));
    }
    Ok(source)
}

/// What a resume records: the new session continues from `continued_from` and
/// displaces the previous current session, if any.
#[derive(Debug, Clone)]
pub struct ResumePlan {
    pub continued_from: String,
    pub displaced: Option<String>,
    pub version: i64,
}

/// Decides a resume once the source session is read: the source must belong to the
/// task, the new id must be unused, and a current session is only displaced by an
/// explicit take-over.
pub fn plan_resume(task: &TaskState, source: &SessionState, new_session_id: &str, new_exists: bool, take_over: bool) -> (r: AppResult<ResumePlan>)
    ensures
        source.task_id != task.id ==> (r matches Err(e) && e.is_constraint("session.resume.source_cross_task"@)),
        source.task_id == task.id && new_exists ==> (r matches Err(e) && e.is_constraint("sessions.id.unique"@)),
        source.task_id == task.id && !new_exists && task.current_session_id is Some && !take_over
            ==> (r matches Err(e) && e.is_session(opt_view(task.current_session_id), new_session_id@)),
        source.task_id == task.id && !new_exists && (task.current_session_id is None || take_over)
            && task.version < i64::MAX ==> (r matches Ok(p) && p.continued_from@ == source.id@
            && opt_view(p.displaced) == opt_view(task.current_session_id) && p.version == task.version
            + 1),
        source.task_id == task.id && !new_exists && (task.current_session_id is None || take_over)
            && task.version == i64::MAX ==> (r matches Err(e) && e.is_constraint("tasks.version"@)),
{
    if source.task_id != task.id {
        return Err(AppError::constraint("session.resume.source_cross_task"));
    }
    if new_exists {
        return Err(AppError::constraint("sessions.id.unique"));
    }
    if task.current_session_id.is_some() && !take_over {
        return Err(AppError::session(opt_str(&task.current_session_id), new_session_id));
    }
    let version = cas_bump(task.version, task.version)?;
    let displaced = match &task.current_session_id {
        Some(c) => Some(c.clone()),
        None => None,
    };
    Ok(ResumePlan { continued_from: source.id.clone(), displaced, version })
}

/// Trimmed, non-blank optional text.
pub open spec fn nonblank_trimmed(v: Option<Seq<char>>) -> Option<Seq<char>> {
    match v {
        Some(t) => if is_blank(t) {
            None
        } else {
            Some(trim(t))
        },
        None => None,
    }
}

fn trimmed_nonblank(v: Option<&str>) -> (r: Option<String>)
    ensures
        opt_view(r) == nonblank_trimmed(
            match v {
                Some(s) => Some(s@),
                None => None,
            },
        ),
{
    match v {
        Some(s) => {
            let c = chars_of(s);
            if chars_blank(c.as_slice()) {
                None
            } else {
                let t = trim_chars(c.as_slice());
                Some(string_from_chars(t.as_slice()))
            }
        },
        None => None,
    }
}

/// Normalizes attach metadata: an external session id needs a non-blank source; both
/// are trimmed and blank values dropped.
pub fn attach_metadata(source: Option<&str>, external: Option<&str>) -> (r: AppResult<(Option<String>, Option<String>)>)
    ensures
        external is Some && (source is None || (source matches Some(s) && is_blank(s@))) ==> (r matches Err(e)
            && e.is_invalid("source"@, "required when externalSessionId is present"@)),
        !(external is Some && (source is None || (source matches Some(s) && is_blank(s@)))) ==> (r matches Ok((
            s,
            x,
        )) && opt_view(s) == nonblank_trimmed(
            match source {
                Some(v) => Some(v@),
                None => None,
            },
        ) && opt_view(x) == nonblank_trimmed(
            match external {
                Some(v) => Some(v@),
                None => None,
            },
        )),
{
    if external.is_some() {
        let missing = match source {
            None => true,
            Some(s) => {
                let c = chars_of(s);
                chars_blank(c.as_slice())
            },
        };
        if missing {
            return Err(AppError::invalid("source", "required when externalSessionId is present"));
        }
    }
    Ok((trimmed_nonblank(source), trimmed_nonblank(external)))
}

/// What an attach does.
#[derive(Debug, Clone)]
pub enum AttachPlan {
    /// The same session with the same metadata already exists: nothing is written.
    Existing,
    /// Insert the session (it does not become current).
    Insert { version: i64 },
}

/// Decides an attach of a non-current session record to the task. `record_missing`
/// says whether the registered record path does not exist on this machine; such a
/// path is still recorded, with a warning.
pub fn plan_attach(
    task: &TaskState,
    expected: i64,
    source: &Option<String>,
    external: &Option<String>,
    record_path: &Option<String>,
    record_missing: bool,
    existing: Option<&SessionState>,
    session_id: &str,
) -> (r: AppResult<Outcome<AttachPlan>>)
    ensures
        expected != task.version ==> (r matches Err(e) && e.is_version(expected, task.version)),
        expected == task.version && existing is Some && !(existing.unwrap().task_id == task.id
            && opt_view(existing.unwrap().source) == opt_view(*source) && opt_view(
            existing.unwrap().external_session_id,
        ) == opt_view(*external) && opt_view(existing.unwrap().record_path) == opt_view(
            *record_path,
        )) ==> (r matches Err(e) && e.is_session(opt_view(task.current_session_id), session_id@)),
        expected == task.version && existing is Some && existing.unwrap().task_id == task.id
            && opt_view(existing.unwrap().source) == opt_view(*source) && opt_view(
            existing.unwrap().external_session_id,
        ) == opt_view(*external) && opt_view(existing.unwrap().record_path) == opt_view(
            *record_path,
        ) ==> (r matches Ok(o) && o.data matches AttachPlan::Existing),
        expected == task.version && existing is None && task.version < i64::MAX ==> (r matches Ok(
            o,
        ) && o.data matches AttachPlan::Insert { version: v } && v == task.version + 1),
        expected == task.version && existing is None && task.version == i64::MAX ==> (r matches Err(
            e,
        ) && e.is_constraint("tasks.version"@)),
        r matches Ok(o) ==> (if record_path is Some && record_missing {
            o.warnings@.len() == 1 && is_record_missing_warning(
                o.warnings@[0],
                session_id@,
                opt_view(*record_path),
            )
        } else {
            o.warnings@.len() == 0
        }),
{
    check_version(task.version, expected)?;
    let plan = if let Some(s) = existing {
        if s.task_id == task.id && opt_equal(&s.source, source) && opt_equal(
            &s.external_session_id,
            external,
        ) && opt_equal(&s.record_path, record_path) {
            AttachPlan::Existing
        } else {
            return Err(AppError::session(opt_str(&task.current_session_id), session_id));
        }
    } else {
        let version = cas_bump(task.version, expected)?;
        AttachPlan::Insert { version }
    };
    let outcome = Outcome::new(plan);
    match record_path_warning(session_id, record_path, record_missing) {
        Some(w) => Ok(outcome.with_warning(w)),
        None => Ok(outcome),
    }
}

/// What closing a session does.
#[derive(Debug, Clone, Copy, PartialEq, Eq, Structural)]
pub enum ClosePlan {
    /// Already ended: nothing is written.
    AlreadyEnded,
    /// End it; when it was the current session the task no longer has one.
    End { was_current: bool, version: i64 },
}

pub fn plan_close(task: &TaskState, expected: i64, session: &SessionState) -> (r: AppResult<ClosePlan>)
    ensures
        expected != task.version ==> (r matches Err(e) && e.is_version(expected, task.version)),
        expected == task.version && session.ended ==> r == Ok::<ClosePlan, AppError>(
            ClosePlan::AlreadyEnded,
        ),
        expected == task.version && !session.ended && task.version < i64::MAX ==> r == Ok::<
            ClosePlan,
            AppError,
        >(
            ClosePlan::End {
                was_current: opt_view(task.current_session_id) == Some(session.id@),
                version: (task.version + 1) as i64,
            },
        ),
        expected == task.version && !session.ended && task.version == i64::MAX ==> (r matches Err(
            e,
        ) && e.is_constraint("tasks.version"@)),
{
    check_version(task.version, expected)?;
    if session.ended {
        return Ok(ClosePlan::AlreadyEnded);
    }
    let was_current = opt_is(&task.current_session_id, session.id.as_str());
    let version = cas_bump(task.version, expected)?;
    Ok(ClosePlan::End { was_current, version })
}

/// What binding a session's external identity does.
#[derive(Debug, Clone, Copy, PartialEq, Eq, Structural)]
pub enum BindPlan {
    /// Already bound to exactly this identity: nothing is written.
    Unchanged,
    Bind { version: i64 },
}

/// Decides a one-time binding of `source`/`external` to a session. `used` says
/// whether another session already holds that identity.
pub fn plan_bind(task: &TaskState, expected: i64, session: &SessionState, source: &str, external: &str, used: bool) -> (r: AppResult<BindPlan>)
    ensures
        expected != task.version ==> (r matches Err(e) && e.is_version(expected, task.version)),
        expected == task.version && session.ended ==> (r matches Err(e) && e.is_constraint(
            "session.bind.closed"@,
        )),
        expected == task.version && !session.ended && opt_view(session.source) == Some(source@)
            && opt_view(session.external_session_id) == Some(external@) ==> r == Ok::<
            BindPlan,
            AppError,
        >(BindPlan::Unchanged),
        expected == task.version && !session.ended && !(opt_view(session.source) == Some(source@)
            && opt_view(session.external_session_id) == Some(external@)) && (
        session.external_session_id is Some || (session.source is Some && opt_view(session.source)
            != Some(source@))) ==> (r matches Err(e) && e.is_session(
            opt_view(task.current_session_id),
            session.id@,
        )),
        expected == task.version && !session.ended && session.external_session_id is None && (
        session.source is None || opt_view(session.source) == Some(source@)) && used ==> (r matches Err(
            e,
        ) && e.is_constraint("sessions.external_identity.unique"@)),
        expected == task.version && !session.ended && session.external_session_id is None && (
        session.source is None || opt_view(session.source) == Some(source@)) && !used && task.version
            < i64::MAX ==> r == Ok::<BindPlan, AppError>(
            BindPlan::Bind { version: (task.version + 1) as i64 },
        ),
        expected == task.version && !session.ended && session.external_session_id is None && (
        session.source is None || opt_view(session.source) == Some(source@)) && !used && task.version
            == i64::MAX ==> (r matches Err(e) && e.is_constraint("tasks.version"@)),
{
    check_version(task.version, expected)?;
    if session.ended {
        return Err(AppError::constraint("session.bind.closed"));
    }
    if opt_is(&session.source, source) && opt_is(&session.external_session_id, external) {
        return Ok(BindPlan::Unchanged);
    }
    let other_source = match &session.source {
        Some(s) => !str_equal(s.as_str(), source),
        None => false,
    };
    if session.external_session_id.is_some() || other_source {
        return Err(AppError::session(opt_str(&task.current_session_id), session.id.as_str()));
    }
    if used {
        return Err(AppError::constraint("sessions.external_identity.unique"));
    }
    let version = cas_bump(task.version, expected)?;
    Ok(BindPlan::Bind { version })
}

/// Before a checkpoint is saved: compare-and-swap, and the named session must be the
/// task's current session.
pub fn checkpoint_precheck(task: &TaskState, expected: i64, session_id: &str) -> (r: AppResult<()>)
    ensures
        expected != task.version ==> (r matches Err(e) && e.is_version(expected, task.version)),
        expected == task.version && opt_view(task.current_session_id) != Some(session_id@) ==> (r matches Err(
            e,
        ) && e.is_session(opt_view(task.current_session_id), session_id@)),
        expected == task.version && opt_view(task.current_session_id) == Some(session_id@) ==> r is Ok,
{
    check_version(task.version, expected)?;
    if !opt_is(&task.current_session_id, session_id) {
        return Err(AppError::session(opt_str(&task.current_session_id), session_id));
    }
    Ok(())
}

/// Once the current session is read: it must belong to the task and be live. The
/// checkpoint's write version is returned.
pub fn plan_checkpoint(task: &TaskState, expected: i64, session: &SessionState) -> (r: AppResult<i64>)
    ensures
        expected != task.version ==> (r matches Err(e) && e.is_version(expected, task.version)),
        expected == task.version && (session.task_id != task.id || session.ended) ==> (r matches Err(
            e,
        ) && e.is_session(opt_view(task.current_session_id), session.id@)),
        expected == task.version && session.task_id == task.id && !session.ended && task.version
            < i64::MAX ==> r == Ok::<i64, AppError>((task.version + 1) as i64),
        expected == task.version && session.task_id == task.id && !session.ended && task.version
            == i64::MAX ==> (r matches Err(e) && e.is_constraint("tasks.version"@)),
{
    check_version(task.version, expected)?;
    if session.task_id != task.id || session.ended {
        return Err(AppError::session(opt_str(&task.current_session_id), session.id.as_str()));
    }
    cas_bump(task.version, expected)
}

/// Checkpoint text lists: every entry must be non-blank.
pub fn validate_string_array(field: &str, items: &Vec<String>) -> (r: AppResult<()>)
    ensures
        (forall|i: int| 0 <= i < items@.len() ==> !is_blank(#[trigger] items@[i]@)) ==> r is Ok,
        (exists|i: int| 0 <= i < items@.len() && is_blank(#[trigger] items@[i]@)) ==> (r matches Err(
            e,
        ) && e.is_invalid(field@, required_reason())),
{
    let mut i: usize = 0;
    while i < items.len()
        invariant
            i <= items@.len(),
            forall|k: int| 0 <= k < i ==> !is_blank(#[trigger] items@[k]@),
        decreases items@.len() - i,
    {
        required(field, items[i].as_str())?;
        i = i + 1;
    }
    Ok(())
}

/// A checkpoint as submitted.
#[derive(Debug, Clone)]
pub struct CheckpointInput {
    pub summary: String,
    pub completed: Vec<String>,
    pub decisions: Vec<String>,
    pub pending: Vec<String>,
    pub next_step: String,
    pub risks: Vec<String>,
}

pub open spec fn all_nonblank(v: Seq<String>) -> bool {
    forall|i: int| 0 <= i < v.len() ==> !is_blank(#[trigger] v[i]@)
}

/// Validates a checkpoint in the order summary, nextStep, completed, decisions,
/// pending, risks.
pub fn validate_checkpoint(input: &CheckpointInput) -> (r: AppResult<()>)
    ensures
        r is Ok <==> (!is_blank(input.summary@) && !is_blank(input.next_step@) && all_nonblank(
            input.completed@,
        ) && all_nonblank(input.decisions@) && all_nonblank(input.pending@) && all_nonblank(
            input.risks@,
        )),
        is_blank(input.summary@) ==> (r matches Err(e) && e.is_invalid("summary"@, required_reason())),
        !is_blank(input.summary@) && is_blank(input.next_step@) ==> (r matches Err(e) && e.is_invalid(
            "nextStep"@,
            required_reason(),
        )),
{
    required("summary", input.summary.as_str())?;
    required("nextStep", input.next_step.as_str())?;
    validate_string_array("completed", &input.completed)?;
    validate_string_array("decisions", &input.decisions)?;
    validate_string_array("pending", &input.pending)?;
    validate_string_array("risks", &input.risks)?;
    Ok(())
}

/// What parsing a JSON array of strings gives: its strings, or the parser's message.
pub uninterp spec fn spec_json_strings(text: Seq<char>) -> Result<Seq<Seq<char>>, Seq<char>>;

pub open spec fn texts_of(v: Seq<String>) -> Seq<Seq<char>> {
    v.map_values(|s: String| s@)
}

/// `serde_json::from_str::<Vec<String>>`: the strings of a JSON array of strings,
/// or the parse error's text for any other text.
#[verifier::external_body]
fn json_string_list(text: &str) -> (r: Result<Vec<String>, String>)
    ensures
        match spec_json_strings(text@) {
            Ok(l) => r matches Ok(v) && texts_of(v@) == l,
            Err(m) => r matches Err(e) && e@ == m,
        },
{
    match serde_json::from_str::<Vec<String>>(text) {
        Ok(v) => Ok(v),
        Err(e) => Err(e.to_string()),
    }
}

/// The list columns of a stored checkpoint, as stored JSON text.
#[derive(Debug, Clone)]
pub struct StoredCheckpointLists {
    pub completed_json: String,
    pub decisions_json: String,
    pub pending_json: String,
    pub risks_json: String,
}

/// The list columns of a stored checkpoint, read back.
#[derive(Debug, Clone)]
pub struct CheckpointLists {
    pub completed: Vec<String>,
    pub decisions: Vec<String>,
    pub pending: Vec<String>,
    pub risks: Vec<String>,
}

/// `e` reports stored JSON in column `column` (named `name`) that does not read
/// back as a list of strings, with the parser's `message`.
pub open spec fn refuses_stored_json(e: AppError, column: u64, name: Seq<char>, message: Seq<char>) -> bool {
    &&& e.body.code == ErrorCode::DatabaseUnavailable
    &&& e.body.message@ == "stored database data is invalid"@
    &&& !e.body.retryable
    &&& e.exit_code == 10
    &&& e.body.details matches ErrorDetails::StoredData { reason, column_index, sqlite_type }
    &&& reason@ == "invalid JSON in "@ + name + ": "@ + message
    &&& column_index == column
    &&& sqlite_type@ == "Text"@
}

fn read_stored_list(text: &str, column: u64, name: &str) -> (r: AppResult<Vec<String>>)
    ensures
        match spec_json_strings(text@) {
            Ok(l) => r matches Ok(v) && texts_of(v@) == l,
            Err(m) => r matches Err(e) && refuses_stored_json(e, column, name@, m),
        },
{
    match json_string_list(text) {
        Ok(v) => Ok(v),
        Err(m) => {
            let mut out: Vec<char> = Vec::new();
            push_str(&mut out, "invalid JSON in ");
            push_str(&mut out, name);
            push_str(&mut out, ": ");
            push_str(&mut out, m.as_str());
            let reason = string_from_chars(out.as_slice());
            Err(AppError::from_sqlite(SqliteFailure::Conversion { column, sqlite_type: owned("Text"), reason }))
        },
    }
}

/// Reads back the lists of a stored checkpoint, in column order: completed (column
/// 4), decisions (5), pending (6), risks (8). The first column that is not a JSON
/// array of strings is reported as invalid stored data.
pub fn read_checkpoint_lists(stored: &StoredCheckpointLists) -> (r: AppResult<CheckpointLists>)
    ensures
        match spec_json_strings(stored.completed_json@) {
            Err(m) => r matches Err(e) && refuses_stored_json(e, 4, "checkpoints.completed_json"@, m),
            Ok(c) => match spec_json_strings(stored.decisions_json@) {
                Err(m) => r matches Err(e) && refuses_stored_json(e, 5, "checkpoints.decisions_json"@, m),
                Ok(d) => match spec_json_strings(stored.pending_json@) {
                    Err(m) => r matches Err(e) && refuses_stored_json(e, 6, "checkpoints.pending_json"@, m),
                    Ok(p) => match spec_json_strings(stored.risks_json@) {
                        Err(m) => r matches Err(e) && refuses_stored_json(e, 8, "checkpoints.risks_json"@, m),
                        Ok(k) => r matches Ok(l) && texts_of(l.completed@) == c && texts_of(l.decisions@) == d
                            && texts_of(l.pending@) == p && texts_of(l.risks@) == k,
                    },
                },
            },
        },
{
    let completed = read_stored_list(stored.completed_json.as_str(), 4, "checkpoints.completed_json")?;
    let decisions = read_stored_list(stored.decisions_json.as_str(), 5, "checkpoints.decisions_json")?;
    let pending = read_stored_list(stored.pending_json.as_str(), 6, "checkpoints.pending_json")?;
    let risks = read_stored_list(stored.risks_json.as_str(), 8, "checkpoints.risks_json")?;
    Ok(CheckpointLists { completed, decisions, pending, risks })
}

pub open spec fn note_type_ok(t: Seq<char>) -> bool {
    t == "decision"@ || t == "progress"@ || t == "risk"@
}

/// Validates a note before the task is read: a known type and non-blank text.
pub fn validate_note(note_type: &str, text: &str) -> (r: AppResult<String>)
    ensures
        !note_type_ok(note_type@) ==> (r matches Err(e) && e.is_invalid(
            "type"@,
            "must be decision, progress, or risk"@,
        )),
        note_type_ok(note_type@) && is_blank(text@) ==> (r matches Err(e) && e.is_invalid(
            "text"@,
            required_reason(),
        )),
        note_type_ok(note_type@) && !is_blank(text@) ==> (r matches Ok(t) && t@ == text@),
{
    if !(str_equal(note_type, "decision") || str_equal(note_type, "progress") || str_equal(
        note_type,
        "risk",
    )) {
        return Err(AppError::invalid("type", "must be decision, progress, or risk"));
    }
    required("text", text)
}

/// What writing a note records: the note, attributed to the task's current session
/// (if any), and the task's next version. Nothing else of the task changes.
#[derive(Debug, Clone)]
pub struct NotePlan {
    pub note_type: String,
    pub text: String,
    pub session_id: Option<String>,
    pub version: i64,
}

/// Decides a note on a task read at `task.version`, in any status and with or
/// without a current session: the type and text are validated first, the text is
/// kept verbatim, the note names the current session, and the version moves by one.
pub fn plan_note(task: &TaskState, expected: i64, note_type: &str, text: &str) -> (r: AppResult<NotePlan>)
    ensures
        !note_type_ok(note_type@) ==> (r matches Err(e) && e.is_invalid(
            "type"@,
            "must be decision, progress, or risk"@,
        )),
        note_type_ok(note_type@) && is_blank(text@) ==> (r matches Err(e) && e.is_invalid(
            "text"@,
            required_reason(),
        )),
        note_type_ok(note_type@) && !is_blank(text@) && expected != task.version ==> (r matches Err(
            e,
        ) && e.is_version(expected, task.version)),
        note_type_ok(note_type@) && !is_blank(text@) && expected == task.version && task.version
            < i64::MAX ==> (r matches Ok(n) && n.note_type@ == note_type@ && n.text@ == text@
            && opt_view(n.session_id) == opt_view(task.current_session_id) && n.version
            == task.version + 1),
        note_type_ok(note_type@) && !is_blank(text@) && expected == task.version && task.version
            == i64::MAX ==> (r matches Err(e) && e.is_constraint("tasks.version"@)),
{
    let text = validate_note(note_type, text)?;
    let version = cas_bump(task.version, expected)?;
    let session_id = match &task.current_session_id {
        Some(s) => Some(s.clone()),
        None => None,
    };
    Ok(NotePlan { note_type: owned(note_type), text, session_id, version })
}

/// Largest importable session file.
pub const MAX_IMPORT_BYTES: u64 = 16777216;

/// Checks done before a session file is read: explicit confirmation that sensitive
/// content was reviewed, a regular file, and at most 16 MiB.
pub fn check_import_file(confirmed: bool, is_file: bool, len: u64) -> (r: AppResult<()>)
    ensures
        !confirmed ==> (r matches Err(e) && e.is_invalid(
            "confirmSensitiveContentReviewed"@,
            "sensitive content review must be confirmed before importing"@,
        )),
        confirmed && !is_file ==> (r matches Err(e) && e.is_invalid("file"@, "must be a regular file"@)),
        confirmed && is_file && len > MAX_IMPORT_BYTES ==> (r matches Err(e) && e.is_invalid(
            "file"@,
            "file exceeds the 16 MiB limit"@,
        )),
        confirmed && is_file && len <= MAX_IMPORT_BYTES ==> r is Ok,
{
    if !confirmed {
        return Err(
            AppError::invalid(
                "confirmSensitiveContentReviewed",
                "sensitive content review must be confirmed before importing",
            ),
        );
    }
    if !is_file {
        return Err(AppError::invalid("file", "must be a regular file"));
    }
    if len > MAX_IMPORT_BYTES {
        return Err(AppError::invalid("file", "file exceeds the 16 MiB limit"));
    }
    Ok(())
}

/// The media type that `mime_guess` associates with a file name, by its extension;
/// `None` when the extension is unknown.
pub uninterp spec fn spec_media_type(path: Seq<char>) -> Option<Seq<char>>;

/// `mime_guess::from_path(path).first_raw()`: the first media type registered for
/// the path's extension, if any. The guess reads the name only, never the file.
#[verifier::external_body]
fn guess_media_type(path: &str) -> (r: Option<String>)
    ensures
        match spec_media_type(path@) {
            Some(t) => r matches Some(m) && m@ == t,
            None => r is None,
        },
{
    mime_guess::from_path(path).first_raw().map(|t| t.to_owned())
}

/// What an import records about its content.
#[derive(Debug, Clone)]
pub struct ImportContent {
    /// Lowercase hex SHA-256 of the bytes, which also detects duplicates.
    pub sha256: String,
    /// The media type guessed from the canonical file name.
    pub media_type: Option<String>,
}

/// Describes the bytes read from a session file at `canonical_path`: content over
/// 16 MiB is refused; otherwise its digest and guessed media type are returned.
pub fn describe_import(canonical_path: &str, content: &[u8]) -> (r: AppResult<ImportContent>)
    ensures
        content@.len() > MAX_IMPORT_BYTES ==> (r matches Err(e) && e.is_invalid(
            "file"@,
            "file exceeds the 16 MiB limit"@,
        )),
        content@.len() <= MAX_IMPORT_BYTES ==> (r matches Ok(c) && c.sha256@ == hex_lower(
            spec_sha256(content@),
        ) && opt_view(c.media_type) == spec_media_type(canonical_path@)),
{
    if content.len() as u64 > MAX_IMPORT_BYTES {
        return Err(AppError::invalid("file", "file exceeds the 16 MiB limit"));
    }
    let sha256 = sha256_hex(content);
    let media_type = guess_media_type(canonical_path);
    Ok(ImportContent { sha256, media_type })
}

/// What an import does.
#[derive(Debug, Clone, Copy, PartialEq, Eq, Structural)]
pub enum ImportPlan {
    /// Identical content is already stored for the session: nothing is written.
    Duplicate,
    Insert { version: i64 },
}

/// `w` asks the caller to review imported content from `source_path` for secrets.
pub open spec fn is_sensitive_content_warning(w: Warning, source_path: Seq<char>) -> bool {
    &&& w.code@ == "SENSITIVE_CONTENT_CHECK_REQUIRED"@
    &&& w.message@ == "verify that imported content does not contain credentials or secrets"@
    &&& w.details matches WarningDetails::ImportedSource { source_path: p } && p@ == source_path
}

/// `w` reports that content with digest `sha256` is already stored for the session.
pub open spec fn is_duplicate_import_warning(w: Warning, session_id: Seq<char>, sha256: Seq<char>) -> bool {
    &&& w.code@ == "DUPLICATE_SESSION_IMPORT"@
    &&& w.message@ == "identical content is already stored for this session"@
    &&& w.details matches WarningDetails::DuplicateImport { session_id: s, sha256: h } && s@
        == session_id && h@ == sha256
}

/// `w` reports that a session's record path does not exist on this machine.
pub open spec fn is_record_missing_warning(w: Warning, session_id: Seq<char>, record_path: Option<Seq<char>>) -> bool {
    &&& w.code@ == "RECORD_PATH_MISSING"@
    &&& w.message@ == "the referenced session record path does not exist"@
    &&& w.details matches WarningDetails::RecordPath { session_id: s, record_path: p } && s@
        == session_id && opt_view(p) == record_path
}

/// The review warning every import carries.
pub fn sensitive_content_warning(source_path: &str) -> (w: Warning)
    ensures
        is_sensitive_content_warning(w, source_path@),
{
    warning(
        "SENSITIVE_CONTENT_CHECK_REQUIRED",
        "verify that imported content does not contain credentials or secrets",
        WarningDetails::ImportedSource { source_path: owned(source_path) },
    )
}

/// The warning of a repeated import.
pub fn duplicate_import_warning(session_id: &str, sha256: &str) -> (w: Warning)
    ensures
        is_duplicate_import_warning(w, session_id@, sha256@),
{
    warning(
        "DUPLICATE_SESSION_IMPORT",
        "identical content is already stored for this session",
        WarningDetails::DuplicateImport { session_id: owned(session_id), sha256: owned(sha256) },
    )
}

/// The warning for a session whose record path is registered but does not exist
/// (`missing`), `None` otherwise.
pub fn record_path_warning(session_id: &str, record_path: &Option<String>, missing: bool) -> (r: Option<Warning>)
    ensures
        record_path is Some && missing ==> (r matches Some(w) && is_record_missing_warning(
            w,
            session_id@,
            opt_view(*record_path),
        )),
        !(record_path is Some && missing) ==> r is None,
{
    match record_path {
        Some(p) => if missing {
            Some(
                warning(
                    "RECORD_PATH_MISSING",
                    "the referenced session record path does not exist",
                    WarningDetails::RecordPath {
                        session_id: owned(session_id),
                        record_path: Some(p.clone()),
                    },
                ),
            )
        } else {
            None
        },
        None => None,
    }
}

/// Decides an import once the task and session are read; `duplicate` says whether
/// the session already stores content with the same SHA-256 (`sha256`), read from
/// `source_path`. Every import warns that its content needs a review for secrets; a
/// duplicate first warns that it is one.
pub fn plan_import(
    task: &TaskState,
    expected: i64,
    session: &SessionState,
    duplicate: bool,
    sha256: &str,
    source_path: &str,
) -> (r: AppResult<Outcome<ImportPlan>>)
    ensures
        expected != task.version ==> (r matches Err(e) && e.is_version(expected, task.version)),
        expected == task.version && session.task_id != task.id ==> (r matches Err(e)
            && e.is_constraint("session_import.session_cross_task"@)),
        expected == task.version && session.task_id == task.id && duplicate ==> (r matches Ok(o)
            && o.data == ImportPlan::Duplicate && o.warnings@.len() == 2
            && is_duplicate_import_warning(o.warnings@[0], session.id@, sha256@)
            && is_sensitive_content_warning(o.warnings@[1], source_path@)),
        expected == task.version && session.task_id == task.id && !duplicate && task.version
            < i64::MAX ==> (r matches Ok(o) && o.data == (ImportPlan::Insert {
            version: (task.version + 1) as i64,
        }) && o.warnings@.len() == 1 && is_sensitive_content_warning(o.warnings@[0], source_path@)),
        expected == task.version && session.task_id == task.id && !duplicate && task.version
            == i64::MAX ==> (r matches Err(e) && e.is_constraint("tasks.version"@)),
{
    check_version(task.version, expected)?;
    if session.task_id != task.id {
        return Err(AppError::constraint("session_import.session_cross_task"));
    }
    if duplicate {
        let o = Outcome::new(ImportPlan::Duplicate).with_warning(
            duplicate_import_warning(session.id.as_str(), sha256),
        ).with_warning(sensitive_content_warning(source_path));
        return Ok(o);
    }
    let version = cas_bump(task.version, expected)?;
    Ok(Outcome::new(ImportPlan::Insert { version }).with_warning(sensitive_content_warning(source_path)))
}

/// Decides a task-bound deletion (an import, or the observations of a session) that
/// removed `removed` rows: nothing removed writes nothing; otherwise the version bumps.
pub fn plan_removal(version: i64, expected: i64, removed: u64) -> (r: AppResult<Option<i64>>)
    ensures
        expected != version ==> (r matches Err(e) && e.is_version(expected, version)),
        expected == version && removed == 0 ==> r == Ok::<Option<i64>, AppError>(None),
        expected == version && removed > 0 && version < i64::MAX ==> r == Ok::<Option<i64>, AppError>(
            Some((version + 1) as i64),
        ),
        expected == version && removed > 0 && version == i64::MAX ==> (r matches Err(e)
            && e.is_constraint("tasks.version"@)),
{
    check_version(version, expected)?;
    if removed == 0 {
        return Ok(None);
    }
    let v = cas_bump(version, expected)?;
    Ok(Some(v))
}

/// Every session write either is refused by the compare-and-swap with the current
/// version reported, or moves the version by exactly one.
pub proof fn law_cas_single_step(version: i64, expected: i64)
    ensures
        bumped(version, expected) matches Some(n) ==> n == version + 1 && expected == version,
        expected != version ==> bumped(version, expected) is None,
{
}

} // verus!
