//! Personal rules: validation of rule content, list filters, and the revision
//! discipline of rule writes. Rules are records, not execution authority.
use vstd::prelude::*;

use crate::error::{AppError, AppResult, ErrorCode, ErrorDetails};
use crate::text::{chars_of, has_char, is_blank, owned, str_blank, str_contains, str_equal};

verus! {

pub const MAX_RULE_BYTES: usize = 65536;

/// Where a rule came from: an explicit instruction or an inference, with evidence
/// and optionally the task version it was drawn from.
#[derive(Debug, Clone)]
pub struct RuleSource {
    pub kind: String,
    pub evidence: String,
    pub task_id: Option<i64>,
    pub task_version: Option<i64>,
}

#[derive(Debug, Clone)]
pub struct RuleContent {
    pub name: String,
    pub body: String,
    pub sources: Vec<RuleSource>,
}

#[derive(Debug, Clone)]
pub struct RuleInput {
    pub scope: String,
    pub project_id: Option<i64>,
    pub status: String,
    pub content_version: i64,
    pub content: RuleContent,
}

#[derive(Debug, Clone)]
pub struct RuleView {
    pub id: i64,
    pub scope: String,
    pub project_id: Option<i64>,
    pub status: String,
    pub revision: i64,
    pub content_version: i64,
    pub content: RuleContent,
    pub created_at: String,
    pub updated_at: String,
}

/// A source as a value.
pub open spec fn source_view(s: RuleSource) -> (Seq<char>, Seq<char>, Option<i64>, Option<i64>) {
    (s.kind@, s.evidence@, s.task_id, s.task_version)
}

/// Content as a value.
pub open spec fn content_view(c: RuleContent) -> (Seq<char>, Seq<char>, Seq<(Seq<char>, Seq<char>, Option<i64>, Option<i64>)>) {
    (c.name@, c.body@, c.sources@.map_values(|s: RuleSource| source_view(s)))
}

/// Bytes a character takes in UTF-8.
pub open spec fn char_width(c: char) -> int {
    if (c as u32) < 0x80 {
        1
    } else if (c as u32) < 0x800 {
        2
    } else if (c as u32) < 0x10000 {
        3
    } else {
        4
    }
}

/// UTF-8 byte length of a text.
pub open spec fn utf8_len(s: Seq<char>) -> int
    decreases s.len(),
{
    if s.len() == 0 {
        0
    } else {
        utf8_len(s.drop_last()) + char_width(s.last())
    }
}

proof fn lemma_utf8_len_monotone(s: Seq<char>, i: int)
    requires
        0 <= i <= s.len(),
    ensures
        utf8_len(s.take(i)) <= utf8_len(s),
    decreases s.len() - i,
{
    if i < s.len() {
        lemma_utf8_len_monotone(s, i + 1);
        assert(s.take(i + 1).drop_last() =~= s.take(i));
    } else {
        assert(s.take(i) =~= s);
    }
}

/// Whether the UTF-8 encoding of the text fits in `max` bytes.
fn utf8_len_at_most(s: &str, max: usize) -> (r: bool)
    ensures
        r == (utf8_len(s@) <= max),
{
    let v = chars_of(s);
    let mut total: usize = 0;
    let mut i: usize = 0;
    assert(v@.take(0) =~= Seq::<char>::empty());
    while i < v.len()
        invariant
            i <= v@.len(),
            v@ == s@,
            total == utf8_len(v@.take(i as int)),
            total <= max,
        decreases v@.len() - i,
    {
        let c = v[i] as u32;
        let w: usize = if c < 0x80 {
            1
        } else if c < 0x800 {
            2
        } else if c < 0x10000 {
            3
        } else {
            4
        };
        assert(v@.take(i + 1).drop_last() =~= v@.take(i as int));
        if w > max - total {
            proof {
                lemma_utf8_len_monotone(v@, i + 1);
            }
            return false;
        }
        total = total + w;
        i = i + 1;
    }
    assert(v@.take(v@.len() as int) =~= v@);
    true
}

/// Bounded text: not blank, no NUL, at most `max` UTF-8 bytes.
pub open spec fn text_ok(s: Seq<char>, max: int) -> bool {
    !is_blank(s) && !has_char(s, '\0') && utf8_len(s) <= max
}

fn text_ok_exec(s: &str, max: usize) -> (r: bool)
    ensures
        r == text_ok(s@, max as int),
{
    !str_blank(s) && !str_contains(s, '\0') && utf8_len_at_most(s, max)
}

pub open spec fn status_ok(s: Seq<char>) -> bool {
    s == "candidate"@ || s == "active"@ || s == "disabled"@
}

pub open spec fn scope_ok(scope: Seq<char>, project: Option<i64>) -> bool {
    (scope == "global"@ && project is None) || (scope == "project"@ && (project matches Some(p)
        && p >= 1))
}

pub open spec fn ids_ok(task: Option<i64>, version: Option<i64>) -> bool {
    (task is None && version is None) || ((task matches Some(t) && t >= 1) && (version matches Some(
        v,
    ) && v >= 1))
}

/// The problem with source `i`, checked in the order kind, evidence, ids, duplicate.
pub open spec fn source_problem(s: Seq<RuleSource>, i: int) -> Option<(Seq<char>, Seq<char>)> {
    let src = s[i];
    if !(src.kind@ == "explicit"@ || src.kind@ == "inferred"@) {
        Some(("sources.kind"@, "expected explicit or inferred"@))
    } else if !text_ok(src.evidence@, 4000) {
        Some(
            (
                "sources.evidence"@,
                "nonblank text without NUL, at most 4000 UTF-8 bytes required"@,
            ),
        )
    } else if !ids_ok(src.task_id, src.task_version) {
        Some(("sources"@, "taskId/taskVersion must both be null or positive"@))
    } else if exists|j: int| 0 <= j < i && source_view(s[j]) == source_view(src) {
        Some(("sources"@, "duplicate source"@))
    } else {
        None
    }
}

/// The problem with the first faulty source, if any.
pub open spec fn sources_problem(s: Seq<RuleSource>) -> Option<(Seq<char>, Seq<char>)> {
    if exists|i: int| 0 <= i < s.len() && source_problem(s, i) is Some {
        let i = choose|i: int|
            0 <= i < s.len() && source_problem(s, i) is Some && forall|j: int|
                0 <= j < i ==> source_problem(s, j) is None;
        source_problem(s, i)
    } else {
        None
    }
}

/// Why rule input is refused (field and reason), `None` when it is valid.
/// `encoded_len` is the length of the content's compact JSON encoding.
pub open spec fn rule_problem(input: RuleInput, encoded_len: int) -> Option<(Seq<char>, Seq<char>)> {
    if input.content_version != 1 {
        Some(("contentVersion"@, "only version 1 is supported"@))
    } else if !status_ok(input.status@) {
        Some(("status"@, "expected candidate, active or disabled"@))
    } else if !scope_ok(input.scope@, input.project_id) {
        Some(("scope"@, "global requires null projectId; project requires positive projectId"@))
    } else if !text_ok(input.content.name@, 300) {
        Some(("name"@, "nonblank text without NUL, at most 300 UTF-8 bytes required"@))
    } else if !text_ok(input.content.body@, 48000) {
        Some(("body"@, "nonblank text without NUL, at most 48000 UTF-8 bytes required"@))
    } else if input.content.sources@.len() > 32 {
        Some(("sources"@, "at most 32 sources"@))
    } else if sources_problem(input.content.sources@) is Some {
        sources_problem(input.content.sources@)
    } else if encoded_len > MAX_RULE_BYTES {
        Some(("content"@, "exceeds 65536 UTF-8 JSON bytes"@))
    } else {
        None
    }
}

fn source_equal(a: &RuleSource, b: &RuleSource) -> (r: bool)
    ensures
        r == (source_view(*a) == source_view(*b)),
{
    str_equal(a.kind.as_str(), b.kind.as_str()) && str_equal(
        a.evidence.as_str(),
        b.evidence.as_str(),
    ) && a.task_id == b.task_id && a.task_version == b.task_version
}

fn check_source(s: &Vec<RuleSource>, i: usize) -> (r: AppResult<()>)
    requires
        i < s@.len(),
    ensures
        match source_problem(s@, i as int) {
            None => r is Ok,
            Some((f, why)) => r matches Err(e) && e.is_invalid(f, why),
        },
{
    let src = &s[i];
    if !(str_equal(src.kind.as_str(), "explicit") || str_equal(src.kind.as_str(), "inferred")) {
        return Err(AppError::invalid("sources.kind", "expected explicit or inferred"));
    }
    if !text_ok_exec(src.evidence.as_str(), 4000) {
        return Err(
            AppError::invalid(
                "sources.evidence",
                "nonblank text without NUL, at most 4000 UTF-8 bytes required",
            ),
        );
    }
    let ids = match (src.task_id, src.task_version) {
        (None, None) => true,
        (Some(t), Some(v)) => t >= 1 && v >= 1,
        _ => false,
    };
    if !ids {
        return Err(AppError::invalid("sources", "taskId/taskVersion must both be null or positive"));
    }
    let mut j: usize = 0;
    while j < i
        invariant
            i < s@.len(),
            j <= i,
            s@[i as int].kind@ == "explicit"@ || s@[i as int].kind@ == "inferred"@,
            text_ok(s@[i as int].evidence@, 4000),
            ids_ok(s@[i as int].task_id, s@[i as int].task_version),
            forall|k: int| 0 <= k < j ==> source_view(s@[k]) != source_view(s@[i as int]),
        decreases i - j,
    {
        if source_equal(&s[j], &s[i]) {
            assert(source_view(s@[j as int]) == source_view(s@[i as int]));
            assert(exists|k: int| 0 <= k < i && source_view(s@[k]) == source_view(s@[i as int]));
            assert(source_problem(s@, i as int) == Some(("sources"@, "duplicate source"@)));
            return Err(AppError::invalid("sources", "duplicate source"));
        }
        j = j + 1;
    }
    Ok(())
}

fn check_sources(s: &Vec<RuleSource>) -> (r: AppResult<()>)
    ensures
        match sources_problem(s@) {
            None => r is Ok,
            Some((f, why)) => r matches Err(e) && e.is_invalid(f, why),
        },
{
    let mut i: usize = 0;
    while i < s.len()
        invariant
            i <= s@.len(),
            forall|j: int| 0 <= j < i ==> source_problem(s@, j) is None,
        decreases s@.len() - i,
    {
        match check_source(s, i) {
            Ok(()) => {},
            Err(e) => {
                proof {
                    let w = choose|w: int|
                        0 <= w < s@.len() && source_problem(s@, w) is Some && forall|j: int|
                            0 <= j < w ==> source_problem(s@, j) is None;
                    if w < i {
                        assert(source_problem(s@, w) is None);
                    } else if w > i {
                        assert(source_problem(s@, i as int) is None);
                    }
                }
                return Err(e);
            },
        }
        i = i + 1;
    }
    Ok(())
}

/// The scope field is refused exactly when the version and status pass and the scope
/// is neither `global` without a project nor `project` with a positive project id:
/// a project rule with a positive project id is never refused for its scope.
pub proof fn law_rule_scope_forms(input: RuleInput, encoded_len: int)
    ensures
        (rule_problem(input, encoded_len) matches Some((f, w)) && f == "scope"@) <==> (
        input.content_version == 1 && (input.status@ == "candidate"@ || input.status@ == "active"@
            || input.status@ == "disabled"@) && !((input.scope@ == "global"@ && input.project_id is None)
            || (input.scope@ == "project"@ && (input.project_id matches Some(p) && p >= 1)))),
{
    reveal_strlit("scope");
    reveal_strlit("contentVersion");
    reveal_strlit("status");
    reveal_strlit("name");
    reveal_strlit("body");
    reveal_strlit("sources");
    reveal_strlit("content");
    reveal_strlit("sources.kind");
    reveal_strlit("sources.evidence");
    let s = input.content.sources@;
    assert("scope"@.len() == 5 && "contentVersion"@.len() == 14 && "status"@.len() == 6
        && "name"@.len() == 4 && "body"@.len() == 4 && "sources"@.len() == 7 && "content"@.len() == 7
        && "sources.kind"@.len() == 12 && "sources.evidence"@.len() == 16);
    assert forall|i: int| #[trigger] source_problem(s, i) is Some implies source_problem(s, i).unwrap().0
        != "scope"@ by {}
    assert(sources_problem(s) matches Some((f, w)) ==> f != "scope"@);
}

/// Rule input is accepted exactly when its content version is 1, its status is
/// candidate, active or disabled, its scope is `global` without a project or
/// `project` with a positive project id, its name (at most 300 UTF-8 bytes) and body
/// (at most 48000) are non-blank text without NUL, it has at most 32 sources and
/// none of them is faulty, and its JSON encoding fits in 65536 bytes.
pub proof fn law_rule_accepted_exactly_when(input: RuleInput, encoded_len: int)
    ensures
        rule_problem(input, encoded_len) is None <==> {
            &&& input.content_version == 1
            &&& input.status@ == "candidate"@ || input.status@ == "active"@ || input.status@ == "disabled"@
            &&& (input.scope@ == "global"@ && input.project_id is None) || (input.scope@ == "project"@
                && (input.project_id matches Some(p) && p >= 1))
            &&& text_ok(input.content.name@, 300)
            &&& text_ok(input.content.body@, 48000)
            &&& input.content.sources@.len() <= 32
            &&& sources_problem(input.content.sources@) is None
            &&& encoded_len <= 65536
        },
{
}

/// A project rule with a positive project id is checked exactly like the same rule
/// kept global: the scope itself never decides the answer.
pub proof fn law_project_rules_checked_like_global_rules(global: RuleInput, project: RuleInput, encoded_len: int)
    requires
        global.scope@ == "global"@,
        global.project_id is None,
        project.scope@ == "project"@,
        project.project_id matches Some(p) && p >= 1,
        project.status@ == global.status@,
        project.content_version == global.content_version,
        project.content == global.content,
    ensures
        rule_problem(project, encoded_len) == rule_problem(global, encoded_len),
{
}

/// Validates rule input; `encoded_len` is the byte length of the content's compact
/// JSON encoding.
pub fn validate_rule(input: &RuleInput, encoded_len: usize) -> (r: AppResult<()>)
    ensures
        match rule_problem(*input, encoded_len as int) {
            None => r is Ok,
            Some((f, why)) => r matches Err(e) && e.is_invalid(f, why),
        },
{
    if input.content_version != 1 {
        return Err(AppError::invalid("contentVersion", "only version 1 is supported"));
    }
    let st = input.status.as_str();
    if !(str_equal(st, "candidate") || str_equal(st, "active") || str_equal(st, "disabled")) {
        return Err(AppError::invalid("status", "expected candidate, active or disabled"));
    }
    let scope = input.scope.as_str();
    let scope_good = match input.project_id {
        None => str_equal(scope, "global"),
        Some(p) => str_equal(scope, "project") && p >= 1,
    };
    if !scope_good {
        proof {
            reveal_strlit("global");
            reveal_strlit("project");
        }
        return Err(
            AppError::invalid(
                "scope",
                "global requires null projectId; project requires positive projectId",
            ),
        );
    }
    if !text_ok_exec(input.content.name.as_str(), 300) {
        return Err(
            AppError::invalid("name", "nonblank text without NUL, at most 300 UTF-8 bytes required"),
        );
    }
    if !text_ok_exec(input.content.body.as_str(), 48000) {
        return Err(
            AppError::invalid(
                "body",
                "nonblank text without NUL, at most 48000 UTF-8 bytes required",
            ),
        );
    }
    if input.content.sources.len() > 32 {
        return Err(AppError::invalid("sources", "at most 32 sources"));
    }
    check_sources(&input.content.sources)?;
    if encoded_len > MAX_RULE_BYTES {
        return Err(AppError::invalid("content", "exceeds 65536 UTF-8 JSON bytes"));
    }
    Ok(())
}

/// Text limits of the audit reason that every rule write records.
pub fn check_rule_reason(reason: &str) -> (r: AppResult<()>)
    ensures
        text_ok(reason@, 4000) ==> r is Ok,
        !text_ok(reason@, 4000) ==> (r matches Err(e) && e.is_invalid(
            "reason"@,
            "nonblank text without NUL, at most 4000 UTF-8 bytes required"@,
        )),
{
    if !text_ok_exec(reason, 4000) {
        return Err(
            AppError::invalid("reason", "nonblank text without NUL, at most 4000 UTF-8 bytes required"),
        );
    }
    Ok(())
}

pub open spec fn filter_ok(scope: Option<Seq<char>>, project: Option<i64>, status: Option<Seq<char>>) -> bool {
    &&& (scope matches Some(s) ==> (s == "global"@ || s == "project"@))
    &&& (status matches Some(s) ==> status_ok(s))
    &&& (project matches Some(p) ==> p >= 1)
}

/// Checks rule list filters: exact scope, positive project, exact status.
pub fn check_rule_filter(scope: Option<&str>, project: Option<i64>, status: Option<&str>) -> (r: AppResult<()>)
    ensures
        filter_ok(
            match scope {
                Some(s) => Some(s@),
                None => None,
            },
            project,
            match status {
                Some(s) => Some(s@),
                None => None,
            },
        ) ==> r is Ok,
        !filter_ok(
            match scope {
                Some(s) => Some(s@),
                None => None,
            },
            project,
            match status {
                Some(s) => Some(s@),
                None => None,
            },
        ) ==> (r matches Err(e) && e.is_invalid("filter"@, "invalid rule filter"@)),
{
    let scope_bad = match scope {
        Some(s) => !(str_equal(s, "global") || str_equal(s, "project")),
        None => false,
    };
    let status_bad = match status {
        Some(s) => !(str_equal(s, "candidate") || str_equal(s, "active") || str_equal(s, "disabled")),
        None => false,
    };
    let project_bad = match project {
        Some(p) => p < 1,
        None => false,
    };
    if scope_bad || status_bad || project_bad {
        return Err(AppError::invalid("filter", "invalid rule filter"));
    }
    Ok(())
}

impl AppError {
    /// `self` is the stale-revision conflict for a rule.
    pub open spec fn is_rule_revision(self, stored: RuleView, expected: i64) -> bool {
        &&& self.body.code == ErrorCode::VersionConflict
        &&& self.body.message@ == "rule revision does not match; re-read and reconsider"@
        &&& self.body.retryable
        &&& self.exit_code == 4
        &&& self.body.details matches ErrorDetails::RuleRevision {
            rule_id: i,
            expected: x,
            current: c,
            rule: v,
        }
        &&& i == stored.id
        &&& x == expected
        &&& c == stored.revision
        &&& same_rule_view(v, stored)
    }

    /// `self` reports a stored rule that is invalid or unsupported.
    pub open spec fn is_stored_rule(self) -> bool {
        &&& self.body.code == ErrorCode::DatabaseUnavailable
        &&& self.body.message@ == "stored rule is invalid or unsupported"@
        &&& !self.body.retryable
        &&& self.exit_code == 10
        &&& self.body.details matches ErrorDetails::Entity { entity_type: t }
        &&& t@ == "rule"@
    }
}

/// The error for a stored rule that is invalid or unsupported.
pub fn stored_rule_error() -> (e: AppError)
    ensures
        e.is_stored_rule(),
{
    AppError::new(
        ErrorCode::DatabaseUnavailable,
        "stored rule is invalid or unsupported",
        false,
        ErrorDetails::Entity { entity_type: owned("rule") },
        10,
    )
}

/// Two stored rules hold the same values.
pub open spec fn same_rule_view(a: RuleView, b: RuleView) -> bool {
    &&& a.id == b.id
    &&& a.scope@ == b.scope@
    &&& a.project_id == b.project_id
    &&& a.status@ == b.status@
    &&& a.revision == b.revision
    &&& a.content_version == b.content_version
    &&& content_view(a.content) == content_view(b.content)
    &&& a.created_at@ == b.created_at@
    &&& a.updated_at@ == b.updated_at@
}

fn copy_rule_view(v: &RuleView) -> (r: RuleView)
    ensures
        same_rule_view(r, *v),
{
    let sources = clone_sources(&v.content.sources);
    proof {
        assert(sources@.map_values(|s: RuleSource| source_view(s)) =~= v.content.sources@.map_values(
            |s: RuleSource| source_view(s),
        ));
    }
    RuleView {
        id: v.id,
        scope: owned(v.scope.as_str()),
        project_id: v.project_id,
        status: owned(v.status.as_str()),
        revision: v.revision,
        content_version: v.content_version,
        content: RuleContent {
            name: owned(v.content.name.as_str()),
            body: owned(v.content.body.as_str()),
            sources,
        },
        created_at: owned(v.created_at.as_str()),
        updated_at: owned(v.updated_at.as_str()),
    }
}

/// The rule input a stored rule corresponds to.
pub open spec fn input_of(v: RuleView) -> RuleInput {
    RuleInput {
        scope: v.scope,
        project_id: v.project_id,
        status: v.status,
        content_version: v.content_version,
        content: v.content,
    }
}

/// Checks a stored rule: valid as input, positive id and revision.
pub fn validate_rule_view(view: &RuleView, encoded_len: usize) -> (r: AppResult<()>)
    ensures
        rule_problem(input_of(*view), encoded_len as int) is None && view.id >= 1 && view.revision
            >= 1 ==> r is Ok,
        !(rule_problem(input_of(*view), encoded_len as int) is None && view.id >= 1
            && view.revision >= 1) ==> (r matches Err(e) && e.is_stored_rule()),
{
    let input = RuleInput {
        scope: view.scope.clone(),
        project_id: view.project_id,
        status: view.status.clone(),
        content_version: view.content_version,
        content: RuleContent {
            name: view.content.name.clone(),
            body: view.content.body.clone(),
            sources: clone_sources(&view.content.sources),
        },
    };
    proof {
        assert(input.content.sources@ =~= view.content.sources@);
    }
    if validate_rule(&input, encoded_len).is_err() {
        return Err(stored_rule_error());
    }
    if view.id < 1 || view.revision < 1 {
        return Err(stored_rule_error());
    }
    Ok(())
}

fn clone_sources(s: &Vec<RuleSource>) -> (r: Vec<RuleSource>)
    ensures
        r@ == s@,
{
    let mut r: Vec<RuleSource> = Vec::new();
    let mut i: usize = 0;
    while i < s.len()
        invariant
            i <= s@.len(),
            r@ == s@.take(i as int),
        decreases s@.len() - i,
    {
        let x = &s[i];
        r.push(
            RuleSource {
                kind: x.kind.clone(),
                evidence: x.evidence.clone(),
                task_id: x.task_id,
                task_version: x.task_version,
            },
        );
        proof {
            assert(r@ =~= s@.take(i + 1));
        }
        i = i + 1;
    }
    assert(s@.take(s@.len() as int) =~= s@);
    r
}

/// The kind of a rule write, recorded in the rule's history.
#[derive(Debug, Clone, Copy, PartialEq, Eq, Structural)]
pub enum RuleOperation {
    Created,
    Updated,
    Disabled,
}

impl RuleOperation {
    pub fn as_str(&self) -> (r: &'static str)
        ensures
            r@ == match self {
                RuleOperation::Created => "rule.created"@,
                RuleOperation::Updated => "rule.updated"@,
                RuleOperation::Disabled => "rule.disabled"@,
            },
    {
        match self {
            RuleOperation::Created => "rule.created",
            RuleOperation::Updated => "rule.updated",
            RuleOperation::Disabled => "rule.disabled",
        }
    }
}

/// A decided rule write: the input to store, its revision and the operation.
#[derive(Debug, Clone)]
pub struct RuleWrite {
    pub input: RuleInput,
    pub revision: i64,
    pub operation: RuleOperation,
}

/// The rule as it stands after a write is decided, before the no-change check.
pub open spec fn rule_input_view(i: RuleInput) -> (Seq<char>, Option<i64>, Seq<char>, i64, (Seq<char>, Seq<char>, Seq<(Seq<char>, Seq<char>, Option<i64>, Option<i64>)>)) {
    (i.scope@, i.project_id, i.status@, i.content_version, content_view(i.content))
}

/// A write that expected revision `expected` is refused against the stored rule.
pub open spec fn write_refused(expected: i64, stored: RuleView) -> bool {
    expected != stored.revision
}

/// The revision a successful write gives the rule: 1 for a new rule, the next one
/// otherwise.
pub open spec fn written_revision(before: Option<RuleView>) -> int {
    match before {
        None => 1,
        Some(b) => b.revision + 1,
    }
}

/// Rule writes are compare-and-swap on the revision: once a write expecting the
/// stored revision has succeeded, every other write expecting that same revision is
/// refused against the rule it left, so of two competing writes exactly one
/// succeeds; and the entry the successful write records is a consistent history
/// entry at the new revision.
pub proof fn law_competing_rule_writes(stored: RuleView, after: RuleView, first: i64, second: i64)
    requires
        !write_refused(first, stored),
        second == first,
        after.id == stored.id,
        after.revision == written_revision(Some(stored)),
    ensures
        write_refused(second, after),
        entry_consistent(stored.id, after.revision as int, Some(stored), after),
{
}

/// A rule's history read back entry by entry is a complete revision chain exactly
/// when every entry is consistent at its position: the entry at position `k` is
/// revision `k + 1` of the rule, the first has no before-image, and each later one
/// names the revision before it.
pub open spec fn history_chain(rule_id: i64, entries: Seq<(Option<RuleView>, RuleView)>) -> bool {
    forall|k: int|
        0 <= k < entries.len() ==> entry_consistent(rule_id, k + 1, (#[trigger] entries[k]).0, entries[k].1)
            && (k == 0 <==> entries[k].0 is None)
}

/// The writes of a rule leave a history chain: creating it records revision 1 with
/// no before-image, and each later write records the next revision with the
/// previous after-image as its before-image.
pub proof fn law_written_history_is_a_chain(rule_id: i64, entries: Seq<(Option<RuleView>, RuleView)>)
    requires
        entries.len() > 0,
        entries[0].0 is None,
        entries[0].1.id == rule_id && entries[0].1.revision == written_revision(None),
        forall|k: int|
            1 <= k < entries.len() ==> (#[trigger] entries[k]).0 == Some(entries[k - 1].1)
                && entries[k].1.id == rule_id && entries[k].1.revision == written_revision(
                entries[k].0,
            ),
    ensures
        history_chain(rule_id, entries),
    decreases entries.len(),
{
    if entries.len() > 1 {
        let shorter = entries.drop_last();
        assert forall|k: int| 1 <= k < shorter.len() implies (#[trigger] shorter[k]).0 == Some(
            shorter[k - 1].1,
        ) && shorter[k].1.id == rule_id && shorter[k].1.revision == written_revision(shorter[k].0) by {
            assert(shorter[k] == entries[k] && shorter[k - 1] == entries[k - 1]);
        }
        law_written_history_is_a_chain(rule_id, shorter);
        assert forall|k: int| 0 <= k < entries.len() implies entry_consistent(
            rule_id,
            k + 1,
            (#[trigger] entries[k]).0,
            entries[k].1,
        ) && (k == 0 <==> entries[k].0 is None) by {
            if k < shorter.len() {
                assert(shorter[k] == entries[k]);
            } else {
                assert(entries[k].0 == Some(entries[k - 1].1));
                assert(shorter[k - 1] == entries[k - 1]);
            }
        }
    }
}

/// Decides the input of a write against the stored rule (`before`, read for
/// `target = Some((id, expected_revision))`). An update or disable needs the current
/// revision; a disable keeps everything but the status.
pub fn resolve_rule_input(target: Option<(i64, i64)>, input: Option<RuleInput>, before: Option<&RuleView>) -> (r: AppResult<RuleInput>)
    requires
        target is Some <==> before is Some,
        target is None ==> input is Some,
    ensures
        match (target, before) {
            (Some((_, expected)), Some(b)) => if write_refused(expected, *b) {
                r matches Err(e) && e.is_rule_revision(*b, expected)
            } else {
                match input {
                    None => r matches Ok(i) && i.scope@ == b.scope@ && i.project_id == b.project_id
                        && i.status@ == "disabled"@ && i.content_version == b.content_version
                        && content_view(i.content) == content_view(b.content),
                    Some(given) => r matches Ok(i) && rule_input_view(i) == rule_input_view(given),
                }
            },
            _ => match input {
                Some(given) => r matches Ok(i) && rule_input_view(i) == rule_input_view(given),
                None => true,
            },
        },
{
    if let Some((_, expected)) = target {
        let b = before.unwrap();
        if expected != b.revision {
            return Err(
                AppError::new(
                    ErrorCode::VersionConflict,
                    "rule revision does not match; re-read and reconsider",
                    true,
                    ErrorDetails::RuleRevision {
                        rule_id: b.id,
                        expected,
                        current: b.revision,
                        rule: copy_rule_view(b),
                    },
                    4,
                ),
            );
        }
    }
    match input {
        Some(i) => Ok(i),
        None => {
            let b = before.unwrap();
            let sources = clone_sources(&b.content.sources);
            proof {
                assert(sources@.map_values(|s: RuleSource| source_view(s)) =~= b.content.sources@.map_values(|s: RuleSource| source_view(s)));
            }
            Ok(
                RuleInput {
                    scope: b.scope.clone(),
                    project_id: b.project_id,
                    status: owned("disabled"),
                    content_version: b.content_version,
                    content: RuleContent {
                        name: b.content.name.clone(),
                        body: b.content.body.clone(),
                        sources,
                    },
                },
            )
        },
    }
}

fn sources_equal(a: &Vec<RuleSource>, b: &Vec<RuleSource>) -> (r: bool)
    ensures
        r == (a@.map_values(|s: RuleSource| source_view(s)) == b@.map_values(
            |s: RuleSource| source_view(s),
        )),
{
    let ghost av = a@.map_values(|s: RuleSource| source_view(s));
    let ghost bv = b@.map_values(|s: RuleSource| source_view(s));
    if a.len() != b.len() {
        assert(av.len() != bv.len());
        return false;
    }
    let mut i: usize = 0;
    while i < a.len()
        invariant
            a@.len() == b@.len(),
            av == a@.map_values(|s: RuleSource| source_view(s)),
            bv == b@.map_values(|s: RuleSource| source_view(s)),
            i <= a@.len(),
            forall|k: int| 0 <= k < i ==> av[k] == bv[k],
        decreases a@.len() - i,
    {
        if !source_equal(&a[i], &b[i]) {
            assert(av[i as int] != bv[i as int]);
            return false;
        }
        i = i + 1;
    }
    assert(av =~= bv);
    true
}

/// Whether a write would leave the rule exactly as stored.
pub fn rule_unchanged(before: &RuleView, input: &RuleInput) -> (r: bool)
    ensures
        r == (before.scope@ == input.scope@ && before.project_id == input.project_id
            && before.status@ == input.status@ && content_view(before.content) == content_view(
            input.content,
        )),
{
    str_equal(before.scope.as_str(), input.scope.as_str()) && before.project_id == input.project_id
        && str_equal(before.status.as_str(), input.status.as_str()) && str_equal(
        before.content.name.as_str(),
        input.content.name.as_str(),
    ) && str_equal(before.content.body.as_str(), input.content.body.as_str()) && sources_equal(
        &before.content.sources,
        &input.content.sources,
    )
}

/// Finishes a write decision: a write that changes nothing is refused; a created
/// rule starts at revision 1 and every other write moves to the next revision.
pub fn finish_rule_write(before: Option<&RuleView>, input: RuleInput, disabling: bool) -> (r: AppResult<RuleWrite>)
    ensures
        match before {
            None => r matches Ok(w) && w.revision == written_revision(None) && w.operation
                == RuleOperation::Created
                && rule_input_view(w.input) == rule_input_view(input),
            Some(b) => if b.scope@ == input.scope@ && b.project_id == input.project_id && b.status@
                == input.status@ && content_view(b.content) == content_view(input.content) {
                r matches Err(e) && e.is_invalid("input"@, "no rule change"@)
            } else if b.revision < i64::MAX {
                r matches Ok(w) && w.revision == written_revision(Some(*b)) && w.operation == (if disabling {
                    RuleOperation::Disabled
                } else {
                    RuleOperation::Updated
                }) && rule_input_view(w.input) == rule_input_view(input)
            } else {
                r matches Err(e) && e.is_constraint("rules.revision"@)
            },
        },
{
    match before {
        None => Ok(RuleWrite { input, revision: 1, operation: RuleOperation::Created }),
        Some(b) => {
            if rule_unchanged(b, &input) {
                return Err(AppError::invalid("input", "no rule change"));
            }
            let revision = match b.revision.checked_add(1) {
                Some(n) => n,
                None => {
                    return Err(AppError::constraint("rules.revision"));
                },
            };
            let operation = if disabling {
                RuleOperation::Disabled
            } else {
                RuleOperation::Updated
            };
            Ok(RuleWrite { input, revision, operation })
        },
    }
}

/// A rule may cite a task version no later than the task's current version.
pub fn check_source_task_version(cited: i64, current: i64) -> (r: AppResult<()>)
    ensures
        cited <= current ==> r is Ok,
        cited > current ==> (r matches Err(e) && e.is_invalid(
            "sources.taskVersion"@,
            "cannot reference a future task version"@,
        )),
{
    if cited > current {
        return Err(
            AppError::invalid("sources.taskVersion", "cannot reference a future task version"),
        );
    }
    Ok(())
}

/// A stored history entry of rule `rule_id` at `revision` is consistent: the
/// after-image is that revision of that rule and the before-image, when present, the
/// revision before it.
pub open spec fn entry_consistent(rule_id: i64, revision: int, before: Option<RuleView>, after: RuleView) -> bool {
    &&& after.id == rule_id
    &&& after.revision == revision
    &&& (before matches Some(b) ==> b.id == rule_id && b.revision == revision - 1)
}

/// Checks one stored history entry of rule `rule_id` at `revision`.
pub fn check_rule_history_entry(rule_id: i64, revision: i64, before: Option<&RuleView>, after: &RuleView) -> (r: AppResult<()>)
    ensures
        entry_consistent(rule_id, revision as int, match before { Some(b) => Some(*b), None => None }, *after)
            ==> r is Ok,
        !entry_consistent(rule_id, revision as int, match before { Some(b) => Some(*b), None => None }, *after)
            ==> (r matches Err(e) && e.is_stored_rule()),
{
    if after.id != rule_id || after.revision != revision {
        return Err(stored_rule_error());
    }
    if let Some(b) = before {
        if b.id != rule_id || b.revision as i128 != revision as i128 - 1 {
            return Err(stored_rule_error());
        }
    }
    Ok(())
}

} // verus!
