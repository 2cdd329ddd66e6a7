//! Projects, their components and source records, and evidence-backed project
//! profiles. Every project change is guarded by the project revision.
use vstd::prelude::*;

use crate::error::{AppError, AppResult, ErrorCode, ErrorDetails};
use crate::text::{chars_of, has_char, string_from_chars, trim, trim_chars, chars_contain};

verus! {

/// At most this many components, and as many source records, per project.
pub const PROJECT_ITEM_LIMIT: i64 = 200;

pub open spec fn page_ok(after: i64, limit: u32) -> bool {
    after >= 0 && 1 <= limit && limit <= 200
}

/// Checks a keyset page request: a non-negative `after` and a limit of 1..=200.
pub fn validate_page(after: i64, limit: u32) -> (r: AppResult<()>)
    ensures
        page_ok(after, limit) ==> r is Ok,
        !page_ok(after, limit) ==> (r matches Err(e) && e.is_invalid(
            "page"@,
            "after must be non-negative and limit must be between 1 and 200"@,
        )),
{
    if after < 0 || limit < 1 || limit > 200 {
        return Err(
            AppError::invalid(
                "page",
                "after must be non-negative and limit must be between 1 and 200",
            ),
        );
    }
    Ok(())
}

/// The key to continue after a page: the last key when more rows follow.
pub fn next_after(page_keys: &[i64], has_more: bool) -> (r: Option<i64>)
    ensures
        has_more && page_keys@.len() > 0 ==> r == Some(page_keys@.last()),
        !has_more || page_keys@.len() == 0 ==> r is None,
{
    if has_more && page_keys.len() > 0 {
        Some(page_keys[page_keys.len() - 1])
    } else {
        None
    }
}

impl AppError {
    pub open spec fn is_project_revision(self, project_id: i64, expected: i64, current: i64) -> bool {
        &&& self.body.code == ErrorCode::VersionConflict
        &&& self.body.message@ == "project revision does not match"@
        &&& self.body.retryable
        &&& self.exit_code == 4
        &&& self.body.details == (ErrorDetails::ProjectRevision { project_id, expected, current })
    }
}

/// Compare-and-swap on a project revision.
pub fn check_project_revision(project_id: i64, revision: i64, expected: i64) -> (r: AppResult<()>)
    ensures
        revision == expected ==> r is Ok,
        revision != expected ==> (r matches Err(e) && e.is_project_revision(project_id, expected, revision)),
{
    if revision != expected {
        return Err(
            AppError::new(
                ErrorCode::VersionConflict,
                "project revision does not match",
                true,
                ErrorDetails::ProjectRevision { project_id, expected, current: revision },
                4,
            ),
        );
    }
    Ok(())
}

/// Revision after a recorded project change.
pub fn next_project_revision(revision: i64) -> (r: AppResult<i64>)
    ensures
        revision < i64::MAX ==> (r matches Ok(n) && n == revision + 1),
        revision == i64::MAX ==> (r matches Err(e) && e.is_constraint("projects.revision"@)),
{
    match revision.checked_add(1) {
        Some(n) => Ok(n),
        None => Err(AppError::constraint("projects.revision")),
    }
}

/// What renaming a project does.
#[derive(Debug, Clone, Copy, PartialEq, Eq, Structural)]
pub enum RenamePlan {
    /// The project already has that name: nothing is written.
    Unchanged,
    /// Store the new name at the next revision.
    Rename { revision: i64 },
}

/// Decides a rename of a project read at `revision` to the normalized `name`: the
/// expected revision must be current, the same name writes nothing, and another
/// name moves the project to the next revision.
pub fn plan_project_rename(project_id: i64, revision: i64, expected: i64, current_name: &str, name: &str) -> (r: AppResult<RenamePlan>)
    ensures
        revision != expected ==> (r matches Err(e) && e.is_project_revision(project_id, expected, revision)),
        revision == expected && current_name@ == name@ ==> r == Ok::<RenamePlan, AppError>(
            RenamePlan::Unchanged,
        ),
        revision == expected && current_name@ != name@ && revision < i64::MAX ==> r == Ok::<
            RenamePlan,
            AppError,
        >(RenamePlan::Rename { revision: (revision + 1) as i64 }),
        revision == expected && current_name@ != name@ && revision == i64::MAX ==> (r matches Err(
            e,
        ) && e.is_constraint("projects.revision"@)),
{
    check_project_revision(project_id, revision, expected)?;
    if crate::text::str_equal(current_name, name) {
        return Ok(RenamePlan::Unchanged);
    }
    let next = next_project_revision(revision)?;
    Ok(RenamePlan::Rename { revision: next })
}

/// A project can take another component while it has fewer than 200.
pub fn check_component_capacity(count: i64) -> (r: AppResult<()>)
    ensures
        count < PROJECT_ITEM_LIMIT ==> r is Ok,
        count >= PROJECT_ITEM_LIMIT ==> (r matches Err(e) && e.is_invalid(
            "components"@,
            "at most 200 components per project"@,
        )),
{
    if count >= PROJECT_ITEM_LIMIT {
        return Err(AppError::invalid("components", "at most 200 components per project"));
    }
    Ok(())
}

/// A project can take another source record while it has fewer than 200.
pub fn check_source_capacity(count: i64) -> (r: AppResult<()>)
    ensures
        count < PROJECT_ITEM_LIMIT ==> r is Ok,
        count >= PROJECT_ITEM_LIMIT ==> (r matches Err(e) && e.is_invalid(
            "sources"@,
            "at most 200 source roots per project"@,
        )),
{
    if count >= PROJECT_ITEM_LIMIT {
        return Err(AppError::invalid("sources", "at most 200 source roots per project"));
    }
    Ok(())
}

/// A stored list longer than the limit is refused rather than truncated.
pub fn check_listed_components(count: usize) -> (r: AppResult<()>)
    ensures
        count <= 200 ==> r is Ok,
        count > 200 ==> (r matches Err(e) && e.is_invalid("components"@, "component limit exceeded"@)),
{
    if count > 200 {
        return Err(AppError::invalid("components", "component limit exceeded"));
    }
    Ok(())
}

/// A stored list longer than the limit is refused rather than truncated.
pub fn check_listed_sources(count: usize) -> (r: AppResult<()>)
    ensures
        count <= 200 ==> r is Ok,
        count > 200 ==> (r matches Err(e) && e.is_invalid("sources"@, "source limit exceeded"@)),
{
    if count > 200 {
        return Err(AppError::invalid("sources", "source limit exceeded"));
    }
    Ok(())
}

/// Profile input. Callers must not submit secrets; the checks are shape and size only.
#[derive(Debug, Clone)]
pub struct ProjectProfileInput {
    pub summary: String,
    pub architecture: String,
    pub development: String,
    pub source_task_id: i64,
    pub source_task_version: i64,
    pub evidence: String,
}

#[derive(Debug, Clone)]
pub struct ProjectProfileView {
    pub project_id: i64,
    pub revision: i64,
    pub summary: String,
    pub architecture: String,
    pub development: String,
    pub source_task_id: i64,
    pub source_task_version: i64,
    pub evidence: String,
    pub updated_at: String,
}

/// Profile text: trimmed, 1..=`limit` characters, no NUL.
pub open spec fn profile_text_ok(s: Seq<char>, limit: int) -> bool {
    trim(s).len() > 0 && !has_char(trim(s), '\0') && trim(s).len() <= limit
}

pub open spec fn profile_text_reason(limit: int) -> Seq<char> {
    if limit == 4000 {
        "must contain 1..=4000 Unicode characters after trimming, without NUL"@
    } else {
        "must contain 1..=8000 Unicode characters after trimming, without NUL"@
    }
}

fn profile_text(field: &str, value: &str, limit: usize) -> (r: AppResult<String>)
    requires
        limit == 4000 || limit == 8000,
    ensures
        profile_text_ok(value@, limit as int) ==> (r matches Ok(t) && t@ == trim(value@)),
        !profile_text_ok(value@, limit as int) ==> (r matches Err(e) && e.is_invalid(
            field@,
            profile_text_reason(limit as int),
        )),
{
    let v = chars_of(value);
    let t = trim_chars(v.as_slice());
    if t.len() == 0 || chars_contain(t.as_slice(), '\0') || t.len() > limit {
        if limit == 4000 {
            return Err(
                AppError::invalid(
                    field,
                    "must contain 1..=4000 Unicode characters after trimming, without NUL",
                ),
            );
        } else {
            return Err(
                AppError::invalid(
                    field,
                    "must contain 1..=8000 Unicode characters after trimming, without NUL",
                ),
            );
        }
    }
    Ok(string_from_chars(t.as_slice()))
}

/// The checked, trimmed texts of a profile.
#[derive(Debug, Clone)]
pub struct ProfileText {
    pub summary: String,
    pub architecture: String,
    pub development: String,
    pub evidence: String,
}

/// Why profile input is refused, in check order: summary, architecture, development,
/// evidence, source task id, source task version.
pub open spec fn profile_problem(i: ProjectProfileInput) -> Option<(Seq<char>, Seq<char>)> {
    if !profile_text_ok(i.summary@, 4000) {
        Some(("summary"@, profile_text_reason(4000)))
    } else if !profile_text_ok(i.architecture@, 8000) {
        Some(("architecture"@, profile_text_reason(8000)))
    } else if !profile_text_ok(i.development@, 8000) {
        Some(("development"@, profile_text_reason(8000)))
    } else if !profile_text_ok(i.evidence@, 4000) {
        Some(("evidence"@, profile_text_reason(4000)))
    } else if i.source_task_id <= 0 {
        Some(("sourceTaskId"@, "must be positive"@))
    } else if i.source_task_version <= 0 {
        Some(("sourceTaskVersion"@, "must be positive"@))
    } else {
        None
    }
}

/// Validates profile input before any read.
pub fn validate_profile_input(input: &ProjectProfileInput) -> (r: AppResult<ProfileText>)
    ensures
        match profile_problem(*input) {
            None => r matches Ok(t) && t.summary@ == trim(input.summary@) && t.architecture@ == trim(
                input.architecture@,
            ) && t.development@ == trim(input.development@) && t.evidence@ == trim(
                input.evidence@,
            ),
            Some((f, why)) => r matches Err(e) && e.is_invalid(f, why),
        },
{
    let summary = profile_text("summary", input.summary.as_str(), 4000)?;
    let architecture = profile_text("architecture", input.architecture.as_str(), 8000)?;
    let development = profile_text("development", input.development.as_str(), 8000)?;
    let evidence = profile_text("evidence", input.evidence.as_str(), 4000)?;
    if input.source_task_id <= 0 {
        return Err(AppError::invalid("sourceTaskId", "must be positive"));
    }
    if input.source_task_version <= 0 {
        return Err(AppError::invalid("sourceTaskVersion", "must be positive"));
    }
    Ok(ProfileText { summary, architecture, development, evidence })
}

/// Decides a profile write against the project (read at `revision`) and the source
/// task (its project and current version). Returns the profile's new revision.
pub fn plan_profile_set(
    project_id: i64,
    revision: i64,
    expected_revision: i64,
    task_project: Option<i64>,
    task_version: i64,
    cited_version: i64,
) -> (r: AppResult<i64>)
    ensures
        revision != expected_revision ==> (r matches Err(e) && e.is_project_revision(
            project_id,
            expected_revision,
            revision,
        )),
        revision == expected_revision && task_project != Some(project_id) ==> (r matches Err(e)
            && e.is_invalid("sourceTaskId"@, "source task must currently belong to this project"@)),
        revision == expected_revision && task_project == Some(project_id) && task_version
            != cited_version ==> (r matches Err(e) && e.is_version(cited_version, task_version)),
        revision == expected_revision && task_project == Some(project_id) && task_version
            == cited_version ==> if revision < i64::MAX {
            (r matches Ok(n) && n == revision + 1)
        } else {
            r matches Err(e) && e.is_constraint("projects.revision"@)
        },
{
    check_project_revision(project_id, revision, expected_revision)?;
    if task_project != Some(project_id) {
        return Err(
            AppError::invalid("sourceTaskId", "source task must currently belong to this project"),
        );
    }
    if task_version != cited_version {
        return Err(AppError::version(cited_version, task_version));
    }
    next_project_revision(revision)
}

/// Where a source root lies. A location is a user-supplied record, not permission to
/// observe the filesystem: it is stored as text, never checked for existence.
#[derive(Debug, Clone)]
pub enum SourceLocation<'a> {
    Directory(&'a str),
}

impl<'a> SourceLocation<'a> {
    /// The directory text of the location.
    pub fn directory(&self) -> (r: &'a str)
        ensures
            match *self {
                SourceLocation::Directory(d) => r@ == d@,
            },
    {
        match self {
            SourceLocation::Directory(d) => d,
        }
    }
}

} // verus!
