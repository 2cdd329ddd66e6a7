//! Task creation input and merge-patch updates of a task's descriptive fields.
//!
//! A patch names a subset of `taskKey`, `title`, `goal`, `scope`,
//! `acceptanceCriteria` and `nextStep`. A task key can be set once and never
//! changed; a title and the descriptions can be replaced but not cleared once set;
//! the next step can be replaced or cleared. A patch that changes nothing is refused,
//! and a successful patch bumps the task version exactly once.
use vstd::prelude::*;

use crate::error::{opt_view, AppError, AppResult};
use crate::reference::{required, required_reason, task_key_accepted, task_key_reason, validate_task_key};
use crate::text::{is_blank, str_equal, text_before};
use crate::title::{title_problem, validate_task_title};

verus! {

/// A JSON patch value as the patch logic sees it.
#[derive(Debug, Clone)]
pub enum PatchValue {
    Null,
    Text(String),
    /// Any other JSON value (number, boolean, array, object).
    Other,
}

/// One member of a patch object.
#[derive(Debug, Clone)]
pub struct PatchField {
    pub key: String,
    pub value: PatchValue,
}

/// The descriptive text fields of a task.
#[derive(Debug, Clone)]
pub struct TaskText {
    pub task_key: Option<String>,
    pub title: Option<String>,
    pub goal: Option<String>,
    pub scope: Option<String>,
    pub acceptance_criteria: Option<String>,
    pub next_step: Option<String>,
}

pub struct TaskTextView {
    pub task_key: Option<Seq<char>>,
    pub title: Option<Seq<char>>,
    pub goal: Option<Seq<char>>,
    pub scope: Option<Seq<char>>,
    pub acceptance_criteria: Option<Seq<char>>,
    pub next_step: Option<Seq<char>>,
}

impl TaskText {
    pub open spec fn view(&self) -> TaskTextView {
        TaskTextView {
            task_key: opt_view(self.task_key),
            title: opt_view(self.title),
            goal: opt_view(self.goal),
            scope: opt_view(self.scope),
            acceptance_criteria: opt_view(self.acceptance_criteria),
            next_step: opt_view(self.next_step),
        }
    }
}

/// Which fields a patch changed.
#[derive(Debug, Clone, Copy, PartialEq, Eq, Structural)]
pub struct Changed {
    pub acceptance_criteria: bool,
    pub goal: bool,
    pub next_step: bool,
    pub scope: bool,
    pub task_key: bool,
    pub title: bool,
}

impl Changed {
    pub open spec fn any(self) -> bool {
        self.acceptance_criteria || self.goal || self.next_step || self.scope || self.task_key
            || self.title
    }

    /// The wire names of the changed fields, in name order.
    pub open spec fn changed_names(self) -> Seq<Seq<char>> {
        (if self.acceptance_criteria { seq!["acceptanceCriteria"@] } else { Seq::empty() }) + (
        if self.goal { seq!["goal"@] } else { Seq::empty() }) + (if self.next_step {
            seq!["nextStep"@]
        } else {
            Seq::empty()
        }) + (if self.scope { seq!["scope"@] } else { Seq::empty() }) + (if self.task_key {
            seq!["taskKey"@]
        } else {
            Seq::empty()
        }) + (if self.title { seq!["title"@] } else { Seq::empty() })
    }

    /// The names of the changed fields, sorted.
    pub fn names(&self) -> (r: Vec<&'static str>)
        ensures
            r@.map_values(|s: &str| s@) == self.changed_names(),
    {
        let mut r: Vec<&'static str> = Vec::new();
        if self.acceptance_criteria {
            r.push("acceptanceCriteria");
        }
        if self.goal {
            r.push("goal");
        }
        if self.next_step {
            r.push("nextStep");
        }
        if self.scope {
            r.push("scope");
        }
        if self.task_key {
            r.push("taskKey");
        }
        if self.title {
            r.push("title");
        }
        assert(r@.map_values(|s: &str| s@) =~= self.changed_names());
        r
    }
}

/// A patch value as a view.
pub enum ValueView {
    Null,
    Text(Seq<char>),
    Other,
}

pub open spec fn value_view(v: PatchValue) -> ValueView {
    match v {
        PatchValue::Null => ValueView::Null,
        PatchValue::Text(s) => ValueView::Text(s@),
        PatchValue::Other => ValueView::Other,
    }
}

/// The value of the first member named `name`.
pub open spec fn lookup(p: Seq<PatchField>, name: Seq<char>) -> Option<ValueView>
    decreases p.len(),
{
    if p.len() == 0 {
        None
    } else if p[0].key@ == name {
        Some(value_view(p[0].value))
    } else {
        lookup(p.drop_first(), name)
    }
}

pub open spec fn known_key(k: Seq<char>) -> bool {
    k == "taskKey"@ || k == "title"@ || k == "goal"@ || k == "scope"@ || k
        == "acceptanceCriteria"@ || k == "nextStep"@
}

/// Why a patch is refused.
pub enum PatchError {
    Invalid(Seq<char>, Seq<char>),
    Constraint(Seq<char>),
}

pub open spec fn patch_error_is(e: AppError, p: PatchError) -> bool {
    match p {
        PatchError::Invalid(field, reason) => e.is_invalid(field, reason),
        PatchError::Constraint(c) => e.is_constraint(c),
    }
}

/// Index of the first unknown member name, if any.
pub open spec fn first_unknown(p: Seq<PatchField>) -> Option<int> {
    if exists|i: int| 0 <= i < p.len() && !known_key(p[i].key@) {
        Some(choose|i: int| 0 <= i < p.len() && !known_key(#[trigger] p[i].key@) && forall|j: int|
            0 <= j < i ==> known_key(#[trigger] p[j].key@))
    } else {
        None
    }
}

/// The shape check done before the task is read: a patch must be non-empty and
/// name only known fields.
pub open spec fn patch_shape_error(p: Seq<PatchField>) -> Option<PatchError> {
    if p.len() == 0 {
        Some(PatchError::Invalid("input"@, "patch cannot be empty"@))
    } else {
        match first_unknown(p) {
            Some(i) => Some(PatchError::Invalid(p[i].key@, "unknown patch field"@)),
            None => None,
        }
    }
}

/// Result of one field step: the new value and whether it changed.
pub type Step = Result<(Option<Seq<char>>, bool), PatchError>;

pub open spec fn key_step(cur: Option<Seq<char>>, v: Option<ValueView>) -> Step {
    match v {
        None => Ok((cur, false)),
        Some(ValueView::Text(k)) => if is_blank(k) {
            Err(PatchError::Invalid("taskKey"@, required_reason()))
        } else if !task_key_accepted(k) {
            Err(PatchError::Invalid("taskKey"@, task_key_reason()))
        } else {
            match cur {
                Some(existing) => if existing != k {
                    Err(PatchError::Constraint("tasks.task_key.immutable"@))
                } else {
                    Ok((cur, false))
                },
                None => Ok((Some(k), true)),
            }
        },
        Some(_) => Err(PatchError::Invalid("taskKey"@, "must be a non-null string"@)),
    }
}

pub open spec fn title_step(cur: Option<Seq<char>>, v: Option<ValueView>) -> Step {
    match v {
        None => Ok((cur, false)),
        Some(ValueView::Null) => if cur is Some {
            Err(PatchError::Invalid("title"@, "cannot be cleared once set"@))
        } else {
            Ok((cur, false))
        },
        Some(ValueView::Other) => Err(PatchError::Invalid("title"@, "must be a string or null"@)),
        Some(ValueView::Text(t)) => match title_problem(t) {
            Some(reason) => Err(PatchError::Invalid("title"@, reason)),
            None => if cur == Some(t) {
                Ok((cur, false))
            } else {
                Ok((Some(t), true))
            },
        },
    }
}

pub open spec fn description_step(field: Seq<char>, cur: Option<Seq<char>>, v: Option<ValueView>) -> Step {
    match v {
        None => Ok((cur, false)),
        Some(ValueView::Null) => if cur is Some {
            Err(PatchError::Invalid(field, "cannot be cleared once set"@))
        } else {
            Ok((cur, false))
        },
        Some(ValueView::Other) => Err(PatchError::Invalid(field, "must be a string or null"@)),
        Some(ValueView::Text(t)) => if is_blank(t) {
            Err(PatchError::Invalid(field, required_reason()))
        } else if cur == Some(t) {
            Ok((cur, false))
        } else {
            Ok((Some(t), true))
        },
    }
}

pub open spec fn next_step_step(cur: Option<Seq<char>>, v: Option<ValueView>) -> Step {
    match v {
        None => Ok((cur, false)),
        Some(ValueView::Null) => if cur is None {
            Ok((cur, false))
        } else {
            Ok((None, true))
        },
        Some(ValueView::Other) => Err(PatchError::Invalid("nextStep"@, "must be a string or null"@)),
        Some(ValueView::Text(t)) => if is_blank(t) {
            Err(PatchError::Invalid("nextStep"@, required_reason()))
        } else if cur == Some(t) {
            Ok((cur, false))
        } else {
            Ok((Some(t), true))
        },
    }
}

/// The fields after the patch and the changed flags, or the refusal; steps run in
/// the order taskKey, title, goal, scope, acceptanceCriteria, nextStep.
pub open spec fn spec_apply_patch(cur: TaskTextView, p: Seq<PatchField>) -> Result<(TaskTextView, Changed), PatchError> {
    match key_step(cur.task_key, lookup(p, "taskKey"@)) {
        Err(e) => Err(e),
        Ok((k, ck)) => match title_step(cur.title, lookup(p, "title"@)) {
            Err(e) => Err(e),
            Ok((t, ct)) => match description_step("goal"@, cur.goal, lookup(p, "goal"@)) {
                Err(e) => Err(e),
                Ok((g, cg)) => match description_step("scope"@, cur.scope, lookup(p, "scope"@)) {
                    Err(e) => Err(e),
                    Ok((s, cs)) => match description_step(
                        "acceptanceCriteria"@,
                        cur.acceptance_criteria,
                        lookup(p, "acceptanceCriteria"@),
                    ) {
                        Err(e) => Err(e),
                        Ok((a, ca)) => match next_step_step(cur.next_step, lookup(p, "nextStep"@)) {
                            Err(e) => Err(e),
                            Ok((n, cn)) => {
                                let changed = Changed {
                                    acceptance_criteria: ca,
                                    goal: cg,
                                    next_step: cn,
                                    scope: cs,
                                    task_key: ck,
                                    title: ct,
                                };
                                if !changed.any() {
                                    Err(
                                        PatchError::Invalid(
                                            "input"@,
                                            "patch does not change any field"@,
                                        ),
                                    )
                                } else {
                                    Ok(
                                        (
                                            TaskTextView {
                                                task_key: k,
                                                title: t,
                                                goal: g,
                                                scope: s,
                                                acceptance_criteria: a,
                                                next_step: n,
                                            },
                                            changed,
                                        ),
                                    )
                                }
                            },
                        },
                    },
                },
            },
        },
    }
}

/// A task key is set at most once: whatever a successful patch does, a task that
/// already has a key keeps exactly that key.
pub proof fn law_task_key_immutable(cur: TaskTextView, p: Seq<PatchField>)
    requires
        cur.task_key is Some,
    ensures
        spec_apply_patch(cur, p) matches Ok((next, changed)) ==> next.task_key == cur.task_key
            && !changed.task_key,
{
}

/// A title or description once set is never cleared by a patch; it can only be
/// replaced.
pub proof fn law_set_text_stays_set(cur: TaskTextView, p: Seq<PatchField>)
    ensures
        spec_apply_patch(cur, p) matches Ok((next, _)) ==> {
            &&& (cur.title is Some ==> next.title is Some)
            &&& (cur.goal is Some ==> next.goal is Some)
            &&& (cur.scope is Some ==> next.scope is Some)
            &&& (cur.acceptance_criteria is Some ==> next.acceptance_criteria is Some)
        },
{
}

/// A text a successful patch gives a field is the field's new value: the title, goal,
/// scope, acceptance criteria or next step becomes exactly that text, and the field
/// counts as changed exactly when it held something else before.
pub proof fn law_patched_text_is_stored(cur: TaskTextView, p: Seq<PatchField>)
    ensures
        spec_apply_patch(cur, p) matches Ok((next, changed)) ==> {
            &&& (lookup(p, "title"@) matches Some(ValueView::Text(t)) ==> next.title == Some(t)
                && changed.title == (cur.title != Some(t)))
            &&& (lookup(p, "goal"@) matches Some(ValueView::Text(t)) ==> next.goal == Some(t)
                && changed.goal == (cur.goal != Some(t)))
            &&& (lookup(p, "scope"@) matches Some(ValueView::Text(t)) ==> next.scope == Some(t)
                && changed.scope == (cur.scope != Some(t)))
            &&& (lookup(p, "acceptanceCriteria"@) matches Some(ValueView::Text(t))
                ==> next.acceptance_criteria == Some(t) && changed.acceptance_criteria == (
            cur.acceptance_criteria != Some(t)))
            &&& (lookup(p, "nextStep"@) matches Some(ValueView::Text(t)) ==> next.next_step == Some(t)
                && changed.next_step == (cur.next_step != Some(t)))
        },
{
}

/// A patch whose only member gives the goal, scope or acceptance criteria a non-blank
/// text different from the current one succeeds: that field becomes the text and is
/// the one field marked changed; every other field stays as it was.
pub proof fn law_replacing_a_description_succeeds(cur: TaskTextView, p: Seq<PatchField>, t: Seq<char>)
    requires
        p.len() == 1,
        p[0].key@ == "goal"@ || p[0].key@ == "scope"@ || p[0].key@ == "acceptanceCriteria"@,
        value_view(p[0].value) == ValueView::Text(t),
        !is_blank(t),
        p[0].key@ == "goal"@ ==> cur.goal != Some(t),
        p[0].key@ == "scope"@ ==> cur.scope != Some(t),
        p[0].key@ == "acceptanceCriteria"@ ==> cur.acceptance_criteria != Some(t),
    ensures
        spec_apply_patch(cur, p) matches Ok((next, changed)) && {
            &&& next.task_key == cur.task_key && !changed.task_key
            &&& next.title == cur.title && !changed.title
            &&& next.next_step == cur.next_step && !changed.next_step
            &&& (if p[0].key@ == "goal"@ { next.goal == Some(t) && changed.goal } else {
                next.goal == cur.goal && !changed.goal
            })
            &&& (if p[0].key@ == "scope"@ { next.scope == Some(t) && changed.scope } else {
                next.scope == cur.scope && !changed.scope
            })
            &&& (if p[0].key@ == "acceptanceCriteria"@ {
                next.acceptance_criteria == Some(t) && changed.acceptance_criteria
            } else {
                next.acceptance_criteria == cur.acceptance_criteria && !changed.acceptance_criteria
            })
        },
{
    reveal_strlit("taskKey");
    reveal_strlit("title");
    reveal_strlit("goal");
    reveal_strlit("scope");
    reveal_strlit("acceptanceCriteria");
    reveal_strlit("nextStep");
    assert("taskKey"@.len() == 7 && "title"@.len() == 5 && "goal"@.len() == 4 && "scope"@.len() == 5
        && "acceptanceCriteria"@.len() == 18 && "nextStep"@.len() == 8);
    assert("scope"@[0] != "title"@[0]);
    let k = p[0].key@;
    assert(p.drop_first().len() == 0);
    assert(lookup(p.drop_first(), "taskKey"@) is None);
    assert(lookup(p.drop_first(), "title"@) is None);
    assert(lookup(p.drop_first(), "nextStep"@) is None);
    assert(k != "taskKey"@ && k != "nextStep"@);
    assert(k != "title"@) by {
        if k == "scope"@ {
            assert(k[0] != "title"@[0]);
        }
    }
    assert(lookup(p, "taskKey"@) is None);
    assert(lookup(p, "title"@) is None);
    assert(lookup(p, "nextStep"@) is None);
    assert(lookup(p, k) == Some(ValueView::Text(t)));
    assert(lookup(p.drop_first(), "goal"@) is None);
    assert(lookup(p.drop_first(), "scope"@) is None);
    assert(lookup(p.drop_first(), "acceptanceCriteria"@) is None);
    assert(k == "goal"@ || lookup(p, "goal"@) is None);
    assert(k == "scope"@ || lookup(p, "scope"@) is None);
    assert(k == "acceptanceCriteria"@ || lookup(p, "acceptanceCriteria"@) is None);
}

fn clone_opt(o: &Option<String>) -> (r: Option<String>)
    ensures
        opt_view(r) == opt_view(*o),
{
    match o {
        Some(s) => Some(s.clone()),
        None => None,
    }
}

/// The first member named `name`.
pub fn patch_get<'a>(patch: &'a [PatchField], name: &str) -> (r: Option<&'a PatchValue>)
    ensures
        match lookup(patch@, name@) {
            None => r is None,
            Some(v) => r matches Some(x) && value_view(*x) == v,
        },
{
    let mut i: usize = 0;
    assert(patch@.subrange(0, patch@.len() as int) =~= patch@);
    while i < patch.len()
        invariant
            i <= patch@.len(),
            lookup(patch@, name@) == lookup(patch@.subrange(i as int, patch@.len() as int), name@),
        decreases patch@.len() - i,
    {
        let ghost rest = patch@.subrange(i as int, patch@.len() as int);
        assert(rest.drop_first() =~= patch@.subrange(i + 1, patch@.len() as int));
        if str_equal(patch[i].key.as_str(), name) {
            return Some(&patch[i].value);
        }
        i = i + 1;
    }
    None
}

fn known_key_exec(k: &str) -> (r: bool)
    ensures
        r == known_key(k@),
{
    str_equal(k, "taskKey") || str_equal(k, "title") || str_equal(k, "goal") || str_equal(
        k,
        "scope",
    ) || str_equal(k, "acceptanceCriteria") || str_equal(k, "nextStep")
}

/// The members of a patch as (name, value) views.
pub open spec fn patch_view(p: Seq<PatchField>) -> Seq<(Seq<char>, ValueView)> {
    p.map_values(|f: PatchField| (f.key@, value_view(f.value)))
}

/// Member names strictly ascending, so in particular no name occurs twice.
pub open spec fn names_ascending(m: Seq<(Seq<char>, ValueView)>) -> bool {
    forall|i: int, j: int| 0 <= i < j < m.len() ==> text_before(#[trigger] m[i].0, #[trigger] m[j].0)
}

/// What parsing a patch document gives: the parser's message for text that is
/// not JSON, `None` for a JSON value other than an object, and an object's
/// members otherwise (for a name given twice, the later value).
pub uninterp spec fn spec_json_patch(text: Seq<char>) -> Result<Option<Seq<(Seq<char>, ValueView)>>, Seq<char>>;

/// `serde_json::from_str::<serde_json::Value>`: the parse error's text, `None` for
/// a value that is not an object, or the object's members with each value reduced
/// to null, a string or anything else. The object is a `BTreeMap`, so the members
/// come out by name in ascending order, each name once.
#[verifier::external_body]
fn json_object_members(text: &str) -> (r: Result<Option<Vec<PatchField>>, String>)
    ensures
        match spec_json_patch(text@) {
            Err(m) => r matches Err(e) && e@ == m,
            Ok(None) => r matches Ok(None),
            Ok(Some(f)) => r matches Ok(Some(v)) && patch_view(v@) == f,
        },
        r matches Ok(Some(v)) ==> names_ascending(patch_view(v@)),
{
    match serde_json::from_str::<serde_json::Value>(text) {
        Err(e) => Err(e.to_string()),
        Ok(serde_json::Value::Object(m)) => Ok(Some(m.into_iter().map(|(key, v)| PatchField {
            key,
            value: match v {
                serde_json::Value::Null => PatchValue::Null,
                serde_json::Value::String(s) => PatchValue::Text(s),
                _ => PatchValue::Other,
            },
        }).collect())),
        Ok(_) => Ok(None),
    }
}

/// Reads a patch document: text that is not JSON is refused with the parser's
/// message, a JSON value other than an object with "must be a JSON object";
/// an object gives its members by name in ascending order.
pub fn parse_patch(input_json: &str) -> (r: AppResult<Vec<PatchField>>)
    ensures
        match spec_json_patch(input_json@) {
            Err(m) => r matches Err(e) && e.is_invalid("input"@, m),
            Ok(None) => r matches Err(e) && e.is_invalid("input"@, "must be a JSON object"@),
            Ok(Some(f)) => r matches Ok(v) && patch_view(v@) == f && names_ascending(f),
        },
{
    match json_object_members(input_json) {
        Err(m) => Err(AppError::invalid("input", m.as_str())),
        Ok(None) => Err(AppError::invalid("input", "must be a JSON object")),
        Ok(Some(v)) => Ok(v),
    }
}

/// The shape check done before the task is read.
pub fn check_patch_shape(patch: &[PatchField]) -> (r: AppResult<()>)
    ensures
        match patch_shape_error(patch@) {
            None => r is Ok,
            Some(pe) => r matches Err(e) && patch_error_is(e, pe),
        },
{
    if patch.len() == 0 {
        return Err(AppError::invalid("input", "patch cannot be empty"));
    }
    let mut i: usize = 0;
    while i < patch.len()
        invariant
            i <= patch@.len(),
            forall|j: int| 0 <= j < i ==> known_key(#[trigger] patch@[j].key@),
        decreases patch@.len() - i,
    {
        if !known_key_exec(patch[i].key.as_str()) {
            proof {
                let w = choose|w: int| 0 <= w < patch@.len() && !known_key(#[trigger] patch@[w].key@)
                    && forall|j: int| 0 <= j < w ==> known_key(#[trigger] patch@[j].key@);
                assert(0 <= i < patch@.len() && !known_key(patch@[i as int].key@));
                if w < i {
                    assert(known_key(patch@[w].key@));
                } else if w > i {
                    assert(known_key(patch@[i as int].key@));
                }
            }
            return Err(AppError::invalid(patch[i].key.as_str(), "unknown patch field"));
        }
        i = i + 1;
    }
    Ok(())
}

fn apply_key(cur: &Option<String>, v: Option<&PatchValue>) -> (r: Result<(Option<String>, bool), AppError>)
    ensures
        match key_step(
            opt_view(*cur),
            match v {
                Some(x) => Some(value_view(*x)),
                None => None,
            },
        ) {
            Ok((k, c)) => r matches Ok((k2, c2)) && opt_view(k2) == k && c2 == c,
            Err(pe) => r matches Err(e) && patch_error_is(e, pe),
        },
{
    match v {
        None => Ok((clone_opt(cur), false)),
        Some(PatchValue::Text(k)) => {
            let k = validate_task_key(k.as_str())?;
            match cur {
                Some(existing) => if !str_equal(existing.as_str(), k.as_str()) {
                    Err(AppError::constraint("tasks.task_key.immutable"))
                } else {
                    Ok((clone_opt(cur), false))
                },
                None => Ok((Some(k), true)),
            }
        },
        Some(_) => Err(AppError::invalid("taskKey", "must be a non-null string")),
    }
}

fn apply_title(cur: &Option<String>, v: Option<&PatchValue>) -> (r: Result<(Option<String>, bool), AppError>)
    ensures
        match title_step(
            opt_view(*cur),
            match v {
                Some(x) => Some(value_view(*x)),
                None => None,
            },
        ) {
            Ok((k, c)) => r matches Ok((k2, c2)) && opt_view(k2) == k && c2 == c,
            Err(pe) => r matches Err(e) && patch_error_is(e, pe),
        },
{
    match v {
        None => Ok((clone_opt(cur), false)),
        Some(PatchValue::Null) => if cur.is_some() {
            Err(AppError::invalid("title", "cannot be cleared once set"))
        } else {
            Ok((None, false))
        },
        Some(PatchValue::Other) => Err(AppError::invalid("title", "must be a string or null")),
        Some(PatchValue::Text(t)) => {
            let t = validate_task_title(t.as_str())?;
            let same = match cur {
                Some(c) => str_equal(c.as_str(), t.as_str()),
                None => false,
            };
            if same {
                Ok((clone_opt(cur), false))
            } else {
                Ok((Some(t), true))
            }
        },
    }
}

fn apply_description(field: &str, cur: &Option<String>, v: Option<&PatchValue>) -> (r: Result<(Option<String>, bool), AppError>)
    ensures
        match description_step(
            field@,
            opt_view(*cur),
            match v {
                Some(x) => Some(value_view(*x)),
                None => None,
            },
        ) {
            Ok((k, c)) => r matches Ok((k2, c2)) && opt_view(k2) == k && c2 == c,
            Err(pe) => r matches Err(e) && patch_error_is(e, pe),
        },
{
    match v {
        None => Ok((clone_opt(cur), false)),
        Some(PatchValue::Null) => if cur.is_some() {
            Err(AppError::invalid(field, "cannot be cleared once set"))
        } else {
            Ok((None, false))
        },
        Some(PatchValue::Other) => Err(AppError::invalid(field, "must be a string or null")),
        Some(PatchValue::Text(t)) => {
            let t = required(field, t.as_str())?;
            let same = match cur {
                Some(c) => str_equal(c.as_str(), t.as_str()),
                None => false,
            };
            if same {
                Ok((clone_opt(cur), false))
            } else {
                Ok((Some(t), true))
            }
        },
    }
}

fn apply_next_step(cur: &Option<String>, v: Option<&PatchValue>) -> (r: Result<(Option<String>, bool), AppError>)
    ensures
        match next_step_step(
            opt_view(*cur),
            match v {
                Some(x) => Some(value_view(*x)),
                None => None,
            },
        ) {
            Ok((k, c)) => r matches Ok((k2, c2)) && opt_view(k2) == k && c2 == c,
            Err(pe) => r matches Err(e) && patch_error_is(e, pe),
        },
{
    match v {
        None => Ok((clone_opt(cur), false)),
        Some(PatchValue::Null) => if cur.is_none() {
            Ok((None, false))
        } else {
            Ok((None, true))
        },
        Some(PatchValue::Other) => Err(AppError::invalid("nextStep", "must be a string or null")),
        Some(PatchValue::Text(t)) => {
            let t = required("nextStep", t.as_str())?;
            let same = match cur {
                Some(c) => str_equal(c.as_str(), t.as_str()),
                None => false,
            };
            if same {
                Ok((clone_opt(cur), false))
            } else {
                Ok((Some(t), true))
            }
        },
    }
}

/// A successful patch: the new fields, the changed flags and the new version.
#[derive(Debug, Clone)]
pub struct PatchPlan {
    pub fields: TaskText,
    pub changed: Changed,
    pub version: i64,
}

/// Applies a patch to a task read at `version`, after the compare-and-swap check on
/// `expected`.
pub fn plan_task_update(current: &TaskText, version: i64, expected: i64, patch: &[PatchField]) -> (r: AppResult<PatchPlan>)
    ensures
        expected != version ==> (r matches Err(e) && e.is_version(expected, version)),
        expected == version ==> match spec_apply_patch(current.view(), patch@) {
            Ok((fields, changed)) => if version < i64::MAX {
                r matches Ok(plan) && plan.fields.view() == fields && plan.changed == changed
                    && plan.version == version + 1
            } else {
                r matches Err(e) && e.is_constraint("tasks.version"@)
            },
            Err(pe) => r matches Err(e) && patch_error_is(e, pe),
        },
{
    if expected != version {
        return Err(AppError::version(expected, version));
    }
    let (k, ck) = apply_key(&current.task_key, patch_get(patch, "taskKey"))?;
    let (t, ct) = apply_title(&current.title, patch_get(patch, "title"))?;
    let (g, cg) = apply_description("goal", &current.goal, patch_get(patch, "goal"))?;
    let (s, cs) = apply_description("scope", &current.scope, patch_get(patch, "scope"))?;
    let (a, ca) = apply_description(
        "acceptanceCriteria",
        &current.acceptance_criteria,
        patch_get(patch, "acceptanceCriteria"),
    )?;
    let (n, cn) = apply_next_step(&current.next_step, patch_get(patch, "nextStep"))?;
    let changed = Changed {
        acceptance_criteria: ca,
        goal: cg,
        next_step: cn,
        scope: cs,
        task_key: ck,
        title: ct,
    };
    if !(ca || cg || cn || cs || ck || ct) {
        return Err(AppError::invalid("input", "patch does not change any field"));
    }
    let next = match version.checked_add(1) {
        Some(n) => n,
        None => {
            return Err(AppError::constraint("tasks.version"));
        },
    };
    Ok(
        PatchPlan {
            fields: TaskText {
                task_key: k,
                title: t,
                goal: g,
                scope: s,
                acceptance_criteria: a,
                next_step: n,
            },
            changed,
            version: next,
        },
    )
}


/// The optional fields a new task may be created with.
#[derive(Debug, Clone)]
pub struct TaskCreateInput {
    pub task_key: Option<String>,
    pub title: Option<String>,
    pub goal: Option<String>,
    pub scope: Option<String>,
    pub acceptance_criteria: Option<String>,
    pub next_step: Option<String>,
}

pub open spec fn create_key(arg: Option<Seq<char>>, body: Option<Seq<char>>) -> Result<Option<Seq<char>>, PatchError> {
    let chosen = match (arg, body) {
        (Some(a), Some(b)) => if a != b {
            None
        } else {
            Some(Some(a))
        },
        (Some(a), None) => Some(Some(a)),
        (None, Some(b)) => Some(Some(b)),
        (None, None) => Some(None),
    };
    match chosen {
        None => Err(
            PatchError::Invalid("taskKey"@, "positional task key and input taskKey must match"@),
        ),
        Some(None) => Ok(None),
        Some(Some(k)) => if is_blank(k) {
            Err(PatchError::Invalid("taskKey"@, required_reason()))
        } else if !task_key_accepted(k) {
            Err(PatchError::Invalid("taskKey"@, task_key_reason()))
        } else {
            Ok(Some(k))
        },
    }
}

pub open spec fn create_optional(field: Seq<char>, v: Option<Seq<char>>) -> Result<Option<Seq<char>>, PatchError> {
    match v {
        None => Ok(None),
        Some(t) => if is_blank(t) {
            Err(PatchError::Invalid(field, required_reason()))
        } else {
            Ok(Some(t))
        },
    }
}

pub open spec fn create_title(v: Option<Seq<char>>) -> Result<Option<Seq<char>>, PatchError> {
    match v {
        None => Ok(None),
        Some(t) => match title_problem(t) {
            Some(reason) => Err(PatchError::Invalid("title"@, reason)),
            None => Ok(Some(t)),
        },
    }
}

/// The fields of a new task, or the refusal; checks run in the order taskKey,
/// title, goal, scope, acceptanceCriteria, nextStep.
pub open spec fn spec_create(arg: Option<Seq<char>>, input: TaskCreateInput) -> Result<TaskTextView, PatchError> {
    match create_key(arg, opt_view(input.task_key)) {
        Err(e) => Err(e),
        Ok(k) => match create_title(opt_view(input.title)) {
            Err(e) => Err(e),
            Ok(t) => match create_optional("goal"@, opt_view(input.goal)) {
                Err(e) => Err(e),
                Ok(g) => match create_optional("scope"@, opt_view(input.scope)) {
                    Err(e) => Err(e),
                    Ok(s) => match create_optional(
                        "acceptanceCriteria"@,
                        opt_view(input.acceptance_criteria),
                    ) {
                        Err(e) => Err(e),
                        Ok(a) => match create_optional("nextStep"@, opt_view(input.next_step)) {
                            Err(e) => Err(e),
                            Ok(n) => Ok(
                                TaskTextView {
                                    task_key: k,
                                    title: t,
                                    goal: g,
                                    scope: s,
                                    acceptance_criteria: a,
                                    next_step: n,
                                },
                            ),
                        },
                    },
                },
            },
        },
    }
}

fn create_optional_exec(field: &str, v: &Option<String>) -> (r: AppResult<Option<String>>)
    ensures
        match create_optional(field@, opt_view(*v)) {
            Ok(x) => r matches Ok(y) && opt_view(y) == x,
            Err(pe) => r matches Err(e) && patch_error_is(e, pe),
        },
{
    match v {
        None => Ok(None),
        Some(t) => Ok(Some(required(field, t.as_str())?)),
    }
}

/// Validates the fields of a new task. `task_key` is the positional key, which must
/// agree with the key in the input when both are given.
pub fn plan_task_create(task_key: Option<&str>, input: &TaskCreateInput) -> (r: AppResult<TaskText>)
    ensures
        match spec_create(
            match task_key {
                Some(k) => Some(k@),
                None => None,
            },
            *input,
        ) {
            Ok(v) => r matches Ok(t) && t.view() == v,
            Err(pe) => r matches Err(e) && patch_error_is(e, pe),
        },
{
    let chosen: Option<&str> = match (task_key, &input.task_key) {
        (Some(a), Some(b)) => {
            if !str_equal(a, b.as_str()) {
                return Err(
                    AppError::invalid("taskKey", "positional task key and input taskKey must match"),
                );
            }
            Some(a)
        },
        (Some(a), None) => Some(a),
        (None, Some(b)) => Some(b.as_str()),
        (None, None) => None,
    };
    let key = match chosen {
        Some(k) => Some(validate_task_key(k)?),
        None => None,
    };
    let title = match &input.title {
        Some(t) => Some(validate_task_title(t.as_str())?),
        None => None,
    };
    let goal = create_optional_exec("goal", &input.goal)?;
    let scope = create_optional_exec("scope", &input.scope)?;
    let acceptance = create_optional_exec("acceptanceCriteria", &input.acceptance_criteria)?;
    let next = create_optional_exec("nextStep", &input.next_step)?;
    Ok(
        TaskText {
            task_key: key,
            title,
            goal,
            scope,
            acceptance_criteria: acceptance,
            next_step: next,
        },
    )
}

/// Decides a retitle of a task read at `version` whose title is `current`: the new
/// title must follow the naming rule, the compare-and-swap must hold, and the title
/// must change. Returns the title and the new version.
pub fn plan_retitle(current: &Option<String>, version: i64, expected: i64, title: &str) -> (r: AppResult<(String, i64)>)
    ensures
        title_problem(title@) matches Some(reason) ==> (r matches Err(e) && e.is_invalid(
            "title"@,
            reason,
        )),
        title_problem(title@) is None && expected != version ==> (r matches Err(e) && e.is_version(
            expected,
            version,
        )),
        title_problem(title@) is None && expected == version && opt_view(*current) == Some(title@)
            ==> (r matches Err(e) && e.is_invalid("title"@, "does not change the task title"@)),
        title_problem(title@) is None && expected == version && opt_view(*current) != Some(title@)
            ==> if version < i64::MAX {
            r matches Ok((t, v)) && t@ == title@ && v == version + 1
        } else {
            r matches Err(e) && e.is_constraint("tasks.version"@)
        },
{
    let title = validate_task_title(title)?;
    if expected != version {
        return Err(AppError::version(expected, version));
    }
    let same = match current {
        Some(c) => str_equal(c.as_str(), title.as_str()),
        None => false,
    };
    if same {
        return Err(AppError::invalid("title", "does not change the task title"));
    }
    match version.checked_add(1) {
        Some(v) => Ok((title, v)),
        None => Err(AppError::constraint("tasks.version")),
    }
}

} // verus!
