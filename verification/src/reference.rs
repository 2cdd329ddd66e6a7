//! Task and project references, task keys and required text.
//!
//! A task is referenced by its numeric id, by `#id`, or by its literal task key.
//! A task key can therefore never look like a numeric reference. A project is
//! referenced by its numeric id, by `##id`, or by its name.
use vstd::prelude::*;

use crate::error::{AppError, AppResult};
use crate::text::{chars_blank, chars_of, is_blank, owned, string_from_chars, trim, trim_chars};

verus! {

pub open spec fn is_digit(c: char) -> bool {
    '0' <= c && c <= '9'
}

/// Every character is an ASCII digit (vacuously true of the empty text).
pub open spec fn all_digits(s: Seq<char>) -> bool {
    forall|i: int| 0 <= i < s.len() ==> is_digit(#[trigger] s[i])
}

pub open spec fn digit_value(c: char) -> int {
    (c as u32) - ('0' as u32)
}

/// The number a digit string denotes (leading zeros allowed).
pub open spec fn digits_value(s: Seq<char>) -> int
    decreases s.len(),
{
    if s.len() == 0 {
        0
    } else {
        digits_value(s.drop_last()) * 10 + digit_value(s.last())
    }
}

proof fn lemma_digits_value_nonneg(s: Seq<char>)
    requires
        all_digits(s),
    ensures
        digits_value(s) >= 0,
    decreases s.len(),
{
    if s.len() > 0 {
        lemma_digits_value_nonneg(s.drop_last());
    }
}

/// Extending a digit string never lowers its value.
proof fn lemma_digits_value_monotone(s: Seq<char>, i: int)
    requires
        all_digits(s),
        0 <= i <= s.len(),
    ensures
        digits_value(s.take(i)) <= digits_value(s),
    decreases s.len() - i,
{
    if i < s.len() {
        lemma_digits_value_monotone(s, i + 1);
        assert(s.take(i + 1).drop_last() =~= s.take(i));
        lemma_digits_value_nonneg(s.take(i));
        assert(is_digit(s.take(i + 1).last()));
    } else {
        assert(s.take(i) =~= s);
    }
}

/// Parses a digit string as an `i64`, `None` when its value exceeds `i64::MAX`.
pub fn parse_digits(d: &[char]) -> (r: Option<i64>)
    requires
        all_digits(d@),
    ensures
        digits_value(d@) <= i64::MAX ==> r == Some(digits_value(d@) as i64),
        digits_value(d@) > i64::MAX ==> r is None,
{
    let mut value: i64 = 0;
    let mut i: usize = 0;
    assert(d@.take(0) =~= Seq::<char>::empty());
    while i < d.len()
        invariant
            all_digits(d@),
            i <= d@.len(),
            value == digits_value(d@.take(i as int)),
        decreases d@.len() - i,
    {
        assert(d@.take(i + 1).drop_last() =~= d@.take(i as int));
        assert(is_digit(d@[i as int]));
        let digit = (d[i] as u32 - '0' as u32) as i64;
        match value.checked_mul(10) {
            Some(m) => match m.checked_add(digit) {
                Some(next) => {
                    value = next;
                },
                None => {
                    proof {
                        lemma_digits_value_monotone(d@, i + 1);
                    }
                    return None;
                },
            },
            None => {
                proof {
                    lemma_digits_value_nonneg(d@.take(i as int));
                    lemma_digits_value_monotone(d@, i + 1);
                }
                return None;
            },
        }
        i = i + 1;
    }
    assert(d@.take(d@.len() as int) =~= d@);
    Some(value)
}

/// Whether every character is an ASCII digit.
pub fn chars_all_digits(v: &[char]) -> (r: bool)
    ensures
        r == all_digits(v@),
{
    let mut i: usize = 0;
    while i < v.len()
        invariant
            i <= v@.len(),
            forall|k: int| 0 <= k < i ==> is_digit(#[trigger] v@[k]),
        decreases v@.len() - i,
    {
        if !('0' <= v[i] && v[i] <= '9') {
            return false;
        }
        i = i + 1;
    }
    true
}

pub open spec fn required_reason() -> Seq<char> {
    "must not be empty"@
}

/// Required text: blank values (empty or white space only) are refused on `field`;
/// other values are kept verbatim.
pub fn required(field: &str, value: &str) -> (r: AppResult<String>)
    ensures
        is_blank(value@) ==> (r matches Err(e) && e.is_invalid(field@, required_reason())),
        !is_blank(value@) ==> (r matches Ok(v) && v@ == value@),
{
    let v = chars_of(value);
    if chars_blank(v.as_slice()) {
        Err(AppError::invalid(field, "must not be empty"))
    } else {
        Ok(owned(value))
    }
}

/// A parsed task reference.
#[derive(Debug, Clone)]
pub enum TaskReference {
    Id(i64),
    Key(String),
}

/// The reference as a view: a numeric id or a key text.
pub enum RefView {
    Id(int),
    Key(Seq<char>),
    Invalid(Seq<char>),
}

pub open spec fn numeric_ref(d: Seq<char>, field_reason_range: Seq<char>, field_reason_positive: Seq<char>) -> RefView {
    if digits_value(d) > i64::MAX {
        RefView::Invalid(field_reason_range)
    } else if digits_value(d) == 0 {
        RefView::Invalid(field_reason_positive)
    } else {
        RefView::Id(digits_value(d))
    }
}

/// What a task reference denotes: after trimming, `#` followed by digits or bare
/// digits is a positive id; anything else non-empty is a literal task key.
pub open spec fn spec_task_reference(r: Seq<char>) -> RefView {
    let t = trim(r);
    if t.len() == 0 {
        RefView::Invalid("must be a numeric id, #id, or non-empty taskKey"@)
    } else if t[0] == '#' {
        let rest = t.drop_first();
        if rest.len() == 0 || !all_digits(rest) {
            RefView::Invalid("# must be followed by a positive numeric task id"@)
        } else {
            numeric_ref(
                rest,
                "numeric task id is out of range"@,
                "numeric task id must be positive"@,
            )
        }
    } else if all_digits(t) {
        numeric_ref(t, "numeric task id is out of range"@, "numeric task id must be positive"@)
    } else {
        RefView::Key(t)
    }
}

/// `r` is the parse result that `spec_task_reference` describes.
pub open spec fn task_reference_result(input: Seq<char>, r: AppResult<TaskReference>) -> bool {
    match spec_task_reference(input) {
        RefView::Id(n) => r matches Ok(TaskReference::Id(i)) && i == n,
        RefView::Key(k) => r matches Ok(TaskReference::Key(s)) && s@ == k,
        RefView::Invalid(reason) => r matches Err(e) && e.is_invalid("taskReference"@, reason),
    }
}

fn numeric_task_reference(d: &[char]) -> (r: AppResult<TaskReference>)
    requires
        all_digits(d@),
    ensures
        match numeric_ref(d@, "numeric task id is out of range"@, "numeric task id must be positive"@) {
            RefView::Id(n) => r matches Ok(TaskReference::Id(i)) && i == n,
            RefView::Invalid(reason) => r matches Err(e) && e.is_invalid("taskReference"@, reason),
            RefView::Key(_) => false,
        },
{
    proof {
        lemma_digits_value_nonneg(d@);
    }
    match parse_digits(d) {
        None => Err(AppError::invalid("taskReference", "numeric task id is out of range")),
        Some(0) => Err(AppError::invalid("taskReference", "numeric task id must be positive")),
        Some(n) => Ok(TaskReference::Id(n)),
    }
}

/// Parses a task reference (numeric id, `#id` or task key).
pub fn parse_task_reference(reference: &str) -> (r: AppResult<TaskReference>)
    ensures
        task_reference_result(reference@, r),
{
    let all = chars_of(reference);
    let t = trim_chars(all.as_slice());
    if t.len() == 0 {
        return Err(
            AppError::invalid("taskReference", "must be a numeric id, #id, or non-empty taskKey"),
        );
    }
    if t[0] == '#' {
        let mut rest: Vec<char> = Vec::new();
        let mut i: usize = 1;
        while i < t.len()
            invariant
                1 <= i <= t@.len(),
                rest@ == t@.subrange(1, i as int),
            decreases t@.len() - i,
        {
            rest.push(t[i]);
            i = i + 1;
        }
        assert(rest@ =~= t@.drop_first());
        if rest.len() == 0 || !chars_all_digits(rest.as_slice()) {
            return Err(
                AppError::invalid("taskReference", "# must be followed by a positive numeric task id"),
            );
        }
        return numeric_task_reference(rest.as_slice());
    }
    if chars_all_digits(t.as_slice()) {
        return numeric_task_reference(t.as_slice());
    }
    Ok(TaskReference::Key(string_from_chars(t.as_slice())))
}

pub open spec fn task_key_reason() -> Seq<char> {
    "must not be purely numeric or start with #"@
}

/// The outcome of task-key validation: blank keys, purely numeric keys and keys
/// starting with `#` are refused; others are kept verbatim.
pub open spec fn task_key_accepted(k: Seq<char>) -> bool {
    !is_blank(k) && !all_digits(k) && k[0] != '#'
}

/// Validates a task key.
pub fn validate_task_key(value: &str) -> (r: AppResult<String>)
    ensures
        is_blank(value@) ==> (r matches Err(e) && e.is_invalid("taskKey"@, required_reason())),
        !is_blank(value@) && !task_key_accepted(value@) ==> (r matches Err(e) && e.is_invalid(
            "taskKey"@,
            task_key_reason(),
        )),
        task_key_accepted(value@) ==> (r matches Ok(k) && k@ == value@),
{
    let v = required("taskKey", value)?;
    let c = chars_of(value);
    if chars_all_digits(c.as_slice()) || c[0] == '#' {
        return Err(AppError::invalid("taskKey", "must not be purely numeric or start with #"));
    }
    Ok(v)
}

/// A task key without surrounding white space is read back as that same key: keys
/// can never shadow numeric references.
pub proof fn law_task_key_is_literal(k: Seq<char>)
    requires
        task_key_accepted(k),
        trim(k) == k,
    ensures
        spec_task_reference(k) == RefView::Key(k),
{
}

/// `#n` and `n` denote the same task.
pub proof fn law_hash_prefix_is_same_id(d: Seq<char>)
    requires
        d.len() > 0,
        all_digits(d),
    ensures
        spec_task_reference(seq!['#'] + d) == spec_task_reference(d),
{
    let h = seq!['#'] + d;
    assert(!is_blank(h)) by {
        assert(!crate::text::is_ws(h[0]));
    }
    assert(!is_blank(d)) by {
        assert(is_digit(d[0]));
    }
    lemma_trim_digits(d);
    lemma_trim_hash_digits(d);
    assert(h.drop_first() =~= d);
}

proof fn lemma_trim_digits(d: Seq<char>)
    requires
        d.len() > 0,
        all_digits(d),
    ensures
        trim(d) == d,
{
    reveal_with_fuel(crate::text::lead_ws, 2);
    reveal_with_fuel(crate::text::trail_ws, 2);
    assert(!is_blank(d)) by {
        assert(is_digit(d[0]));
    }
    assert(is_digit(d.last()));
    assert(d.subrange(0, d.len() as int) =~= d);
}

proof fn lemma_trim_hash_digits(d: Seq<char>)
    requires
        d.len() > 0,
        all_digits(d),
    ensures
        trim(seq!['#'] + d) == seq!['#'] + d,
{
    let h = seq!['#'] + d;
    reveal_with_fuel(crate::text::lead_ws, 2);
    reveal_with_fuel(crate::text::trail_ws, 2);
    assert(!is_blank(h)) by {
        assert(!crate::text::is_ws(h[0]));
    }
    assert(h.last() == d.last());
    assert(is_digit(d.last()));
    assert(h.subrange(0, h.len() as int) =~= h);
}

/// A parsed project reference.
#[derive(Debug, Clone)]
pub enum ProjectReference {
    Id(i64),
    Name(String),
}

pub open spec fn spec_project_reference(r: Seq<char>) -> RefView {
    let t = trim(r);
    if t.len() == 0 {
        RefView::Invalid("must be a numeric id, ##id, or a project name"@)
    } else if t.len() >= 2 && t[0] == '#' && t[1] == '#' {
        let rest = t.subrange(2, t.len() as int);
        if rest.len() == 0 || !all_digits(rest) {
            RefView::Invalid("## must be followed by a positive numeric project id"@)
        } else {
            numeric_ref(
                rest,
                "numeric project id is out of range"@,
                "numeric project id must be positive"@,
            )
        }
    } else if t[0] == '#' {
        RefView::Invalid("projects are referenced by id, ##id or name, not #id"@)
    } else if all_digits(t) {
        numeric_ref(t, "numeric project id is out of range"@, "numeric project id must be positive"@)
    } else {
        RefView::Key(t)
    }
}

proof fn lemma_trim_double_hash_digits(d: Seq<char>)
    requires
        d.len() > 0,
        all_digits(d),
    ensures
        trim(seq!['#', '#'] + d) == seq!['#', '#'] + d,
{
    let h = seq!['#', '#'] + d;
    reveal_with_fuel(crate::text::lead_ws, 2);
    reveal_with_fuel(crate::text::trail_ws, 2);
    assert(!is_blank(h)) by {
        assert(!crate::text::is_ws(h[0]));
    }
    assert(h.last() == d.last());
    assert(is_digit(d.last()));
    assert(h.subrange(0, h.len() as int) =~= h);
}

/// `##n` and `n` denote the same project, while `#n` is refused for projects.
pub proof fn law_double_hash_is_same_project(d: Seq<char>)
    requires
        d.len() > 0,
        all_digits(d),
    ensures
        spec_project_reference(seq!['#', '#'] + d) == spec_project_reference(d),
        spec_project_reference(seq!['#'] + d) == RefView::Invalid(
            "projects are referenced by id, ##id or name, not #id"@,
        ),
{
    let h = seq!['#', '#'] + d;
    lemma_trim_digits(d);
    lemma_trim_double_hash_digits(d);
    lemma_trim_hash_digits(d);
    assert(h.subrange(2, h.len() as int) =~= d);
    assert(is_digit(d[0]));
}

pub open spec fn project_reference_result(input: Seq<char>, r: AppResult<ProjectReference>) -> bool {
    match spec_project_reference(input) {
        RefView::Id(n) => r matches Ok(ProjectReference::Id(i)) && i == n,
        RefView::Key(k) => r matches Ok(ProjectReference::Name(s)) && s@ == k,
        RefView::Invalid(reason) => r matches Err(e) && e.is_invalid("project"@, reason),
    }
}

fn numeric_project_reference(d: &[char]) -> (r: AppResult<ProjectReference>)
    requires
        all_digits(d@),
    ensures
        match numeric_ref(d@, "numeric project id is out of range"@, "numeric project id must be positive"@) {
            RefView::Id(n) => r matches Ok(ProjectReference::Id(i)) && i == n,
            RefView::Invalid(reason) => r matches Err(e) && e.is_invalid("project"@, reason),
            RefView::Key(_) => false,
        },
{
    proof {
        lemma_digits_value_nonneg(d@);
    }
    match parse_digits(d) {
        None => Err(AppError::invalid("project", "numeric project id is out of range")),
        Some(0) => Err(AppError::invalid("project", "numeric project id must be positive")),
        Some(n) => Ok(ProjectReference::Id(n)),
    }
}

/// Parses a project reference (numeric id, `##id` or name).
pub fn parse_project_reference(reference: &str) -> (r: AppResult<ProjectReference>)
    ensures
        project_reference_result(reference@, r),
{
    let all = chars_of(reference);
    let t = trim_chars(all.as_slice());
    if t.len() == 0 {
        return Err(AppError::invalid("project", "must be a numeric id, ##id, or a project name"));
    }
    if t.len() >= 2 && t[0] == '#' && t[1] == '#' {
        let mut rest: Vec<char> = Vec::new();
        let mut i: usize = 2;
        while i < t.len()
            invariant
                2 <= i <= t@.len(),
                rest@ == t@.subrange(2, i as int),
            decreases t@.len() - i,
        {
            rest.push(t[i]);
            i = i + 1;
        }
        if rest.len() == 0 || !chars_all_digits(rest.as_slice()) {
            return Err(
                AppError::invalid("project", "## must be followed by a positive numeric project id"),
            );
        }
        return numeric_project_reference(rest.as_slice());
    }
    if t[0] == '#' {
        return Err(
            AppError::invalid("project", "projects are referenced by id, ##id or name, not #id"),
        );
    }
    if chars_all_digits(t.as_slice()) {
        return numeric_project_reference(t.as_slice());
    }
    Ok(ProjectReference::Name(string_from_chars(t.as_slice())))
}

} // verus!
