//! The display naming rule for task titles: `MMDD｜类型｜主题`.
//!
//! The date is a valid month and day (29 February allowed), the type is one of
//! eight fixed words, the subject is non-empty without surrounding white space,
//! and exactly two full-width separators `｜` occur.
use vstd::prelude::*;

use crate::error::{AppError, AppResult};
use crate::reference::{all_digits, digit_value, is_digit, required, required_reason};
use crate::text::{chars_equal, chars_of, is_blank, is_ws, lead_ws, lemma_trim, trail_ws, trim, trim_chars};

verus! {

/// The full-width separator U+FF5C.
pub open spec fn sep() -> char {
    '\u{FF5C}'
}

/// `i` and `j` are the positions of the only two separators in `s`.
pub open spec fn two_seps_at(s: Seq<char>, i: int, j: int) -> bool {
    &&& 0 <= i < j < s.len()
    &&& s[i] == sep()
    &&& s[j] == sep()
    &&& forall|k: int| 0 <= k < s.len() && k != i && k != j ==> #[trigger] s[k] != sep()
}

pub open spec fn has_two_seps(s: Seq<char>) -> bool {
    exists|i: int, j: int| two_seps_at(s, i, j)
}

/// Days in a month; February allows 29, other values give 0.
pub open spec fn max_day(month: int) -> int {
    if month == 1 || month == 3 || month == 5 || month == 7 || month == 8 || month == 10 || month
        == 12 {
        31
    } else if month == 4 || month == 6 || month == 9 || month == 11 {
        30
    } else if month == 2 {
        29
    } else {
        0
    }
}

pub open spec fn date_digits(d: Seq<char>) -> bool {
    d.len() == 4 && all_digits(d)
}

pub open spec fn date_valid(d: Seq<char>) -> bool {
    let month = digit_value(d[0]) * 10 + digit_value(d[1]);
    let day = digit_value(d[2]) * 10 + digit_value(d[3]);
    1 <= day && day <= max_day(month)
}

/// The eight task types.
pub open spec fn is_task_type(t: Seq<char>) -> bool {
    ||| t == seq!['功', '能']
    ||| t == seq!['设', '计']
    ||| t == seq!['修', '复']
    ||| t == seq!['优', '化']
    ||| t == seq!['发', '布']
    ||| t == seq!['探', '索']
    ||| t == seq!['文', '档']
    ||| t == seq!['研', '究']
}

pub open spec fn subject_valid(t: Seq<char>) -> bool {
    t.len() > 0 && trim(t) == t
}

/// Why a title is refused, `None` when it follows the rule.
pub open spec fn title_problem(s: Seq<char>) -> Option<Seq<char>> {
    if is_blank(s) {
        Some(required_reason())
    } else if !has_two_seps(s) {
        Some("must use MMDD｜类型｜主题 with exactly two full-width separators"@)
    } else {
        let (i, j) = choose|i: int, j: int| two_seps_at(s, i, j);
        if !date_digits(s.take(i)) {
            Some("MMDD must contain four digits"@)
        } else if !date_valid(s.take(i)) {
            Some("MMDD must be a valid month and day"@)
        } else if !is_task_type(s.subrange(i + 1, j)) {
            Some("类型 must be 功能、设计、修复、优化、发布、探索、文档 or 研究"@)
        } else if !subject_valid(s.subrange(j + 1, s.len() as int)) {
            Some("主题 must be non-empty without surrounding whitespace"@)
        } else {
            None
        }
    }
}

/// The separator positions are unique when they exist.
proof fn lemma_two_seps_unique(s: Seq<char>, i: int, j: int, a: int, b: int)
    requires
        two_seps_at(s, i, j),
        two_seps_at(s, a, b),
    ensures
        i == a && j == b,
{
    if a != i && a != j {
        assert(s[a] != sep());
    }
    if b != i && b != j {
        assert(s[b] != sep());
    }
    if i != a && i != b {
        assert(s[i] != sep());
    }
}

/// Copies `v[from..to]`.
fn slice_of(v: &[char], from: usize, to: usize) -> (r: Vec<char>)
    requires
        from <= to <= v@.len(),
    ensures
        r@ == v@.subrange(from as int, to as int),
{
    let mut r: Vec<char> = Vec::new();
    let mut k = from;
    while k < to
        invariant
            from <= k <= to <= v@.len(),
            r@ == v@.subrange(from as int, k as int),
        decreases to - k,
    {
        r.push(v[k]);
        k = k + 1;
    }
    r
}

fn task_type_ok(t: &[char]) -> (r: bool)
    ensures
        r == is_task_type(t@),
{
    t.len() == 2 && (chars_equal(t, &['功', '能']) || chars_equal(t, &['设', '计']) || chars_equal(
        t,
        &['修', '复'],
    ) || chars_equal(t, &['优', '化']) || chars_equal(t, &['发', '布']) || chars_equal(
        t,
        &['探', '索'],
    ) || chars_equal(t, &['文', '档']) || chars_equal(t, &['研', '究']))
}

/// Every title of the form `MMDD｜T｜S` is accepted: `MMDD` four ASCII digits naming
/// a month 01 to 12 and a day that month has (29 February allowed), `T` one of 功能、
/// 设计、修复、优化、发布、探索、文档、研究, and `S` non-empty, neither starting nor ending
/// with white space, and holding no further separator.
pub proof fn law_well_formed_titles_are_accepted(date: Seq<char>, kind: Seq<char>, subject: Seq<char>)
    requires
        date.len() == 4,
        forall|k: int| 0 <= k < 4 ==> '0' <= #[trigger] date[k] && date[k] <= '9',
        ({
            let month = (date[0] as int - 48) * 10 + (date[1] as int - 48);
            let day = (date[2] as int - 48) * 10 + (date[3] as int - 48);
            &&& 1 <= month <= 12
            &&& 1 <= day <= 31
            &&& (month == 4 || month == 6 || month == 9 || month == 11) ==> day <= 30
            &&& month == 2 ==> day <= 29
        }),
        kind == seq!['功', '能'] || kind == seq!['设', '计'] || kind == seq!['修', '复'] || kind == seq![
            '优',
            '化',
        ] || kind == seq!['发', '布'] || kind == seq!['探', '索'] || kind == seq!['文', '档'] || kind
            == seq!['研', '究'],
        subject.len() > 0,
        !is_ws(subject[0]),
        !is_ws(subject.last()),
        forall|k: int| 0 <= k < subject.len() ==> #[trigger] subject[k] != '\u{FF5C}',
    ensures
        title_problem(date + seq!['\u{FF5C}'] + kind + seq!['\u{FF5C}'] + subject) is None,
{
    let t = date + seq![sep()] + kind + seq![sep()] + subject;
    assert(kind.len() == 2);
    assert(kind[0] != sep() && kind[1] != sep());
    assert forall|k: int| 0 <= k < t.len() && k != 4 && k != 7 implies #[trigger] t[k] != sep() by {
        if k < 4 {
            assert(t[k] == date[k]);
        } else if k < 7 {
            assert(t[k] == kind[k - 5]);
        } else {
            assert(t[k] == subject[k - 8]);
        }
    }
    assert(two_seps_at(t, 4, 7));
    let (i, j) = choose|i: int, j: int| two_seps_at(t, i, j);
    lemma_two_seps_unique(t, 4, 7, i, j);
    assert(t[0] == date[0]);
    assert(!is_ws(t[0]));
    assert(!is_blank(t));
    assert(t.take(4) =~= date);
    assert(t.subrange(5, 7) =~= kind);
    assert(t.subrange(8, t.len() as int) =~= subject);
    assert(forall|k: int| 0 <= k < 4 ==> is_digit(#[trigger] date[k]));
    assert(digit_value(date[0]) == date[0] as int - 48);
    assert(lead_ws(subject) == 0);
    assert(trail_ws(subject) == 0);
    assert(!is_blank(subject));
    assert(subject.subrange(0, subject.len() as int) =~= subject);
}

/// Only titles of that form are accepted: an accepted title is four ASCII digits
/// naming a valid month and day, a separator, one of the eight types, a separator,
/// and a non-empty subject that neither starts nor ends with white space and holds
/// no further separator.
pub proof fn law_accepted_titles_have_the_form(t: Seq<char>)
    requires
        title_problem(t) is None,
    ensures
        t.len() > 8,
        t[4] == '\u{FF5C}' && t[7] == '\u{FF5C}',
        forall|k: int| 0 <= k < 4 ==> '0' <= #[trigger] t[k] && t[k] <= '9',
        ({
            let month = (t[0] as int - 48) * 10 + (t[1] as int - 48);
            let day = (t[2] as int - 48) * 10 + (t[3] as int - 48);
            &&& 1 <= month <= 12
            &&& 1 <= day <= 31
            &&& (month == 4 || month == 6 || month == 9 || month == 11) ==> day <= 30
            &&& month == 2 ==> day <= 29
        }),
        ({
            let kind = t.subrange(5, 7);
            kind == seq!['功', '能'] || kind == seq!['设', '计'] || kind == seq!['修', '复'] || kind
                == seq!['优', '化'] || kind == seq!['发', '布'] || kind == seq!['探', '索'] || kind
                == seq!['文', '档'] || kind == seq!['研', '究']
        }),
        !is_ws(t[8]),
        !is_ws(t.last()),
        forall|k: int| 8 <= k < t.len() ==> #[trigger] t[k] != '\u{FF5C}',
{
    let (i, j) = choose|i: int, j: int| two_seps_at(t, i, j);
    assert(t.take(i).len() == 4);
    assert(i == 4);
    let kind = t.subrange(i + 1, j);
    assert(kind.len() == 2);
    assert(j == 7);
    let d = t.take(4);
    assert forall|k: int| 0 <= k < 4 implies '0' <= #[trigger] t[k] && t[k] <= '9' by {
        assert(d[k] == t[k]);
        assert(is_digit(d[k]));
    }
    assert(d[0] == t[0] && d[1] == t[1] && d[2] == t[2] && d[3] == t[3]);
    let subject = t.subrange(8, t.len() as int);
    assert(subject.len() > 0 && trim(subject) == subject);
    lemma_trim(subject);
    assert(subject[0] == t[8]);
    assert(subject.last() == t.last());
    assert forall|k: int| 8 <= k < t.len() implies #[trigger] t[k] != '\u{FF5C}' by {
        assert(k != 4 && k != 7);
    }
}

/// Validates a task title against the naming rule and returns it verbatim.
pub fn validate_task_title(value: &str) -> (r: AppResult<String>)
    ensures
        match title_problem(value@) {
            None => r matches Ok(t) && t@ == value@,
            Some(reason) => r matches Err(e) && e.is_invalid("title"@, reason),
        },
{
    let text = required("title", value)?;
    let v = chars_of(value);
    let ghost s = v@;
    let sep_char: char = '\u{FF5C}';
    // Scan for the separators: `found` counts them (3 meaning "three or more").
    let mut found: usize = 0;
    let mut p1: usize = 0;
    let mut p2: usize = 0;
    let mut p3: usize = 0;
    let mut idx: usize = 0;
    while idx < v.len()
        invariant
            s == v@,
            sep_char == sep(),
            idx <= s.len(),
            found <= 3,
            found == 0 ==> forall|k: int| 0 <= k < idx ==> #[trigger] s[k] != sep(),
            found >= 1 ==> p1 < idx && s[p1 as int] == sep() && forall|k: int|
                0 <= k < p1 ==> #[trigger] s[k] != sep(),
            found == 1 ==> forall|k: int| p1 < k < idx ==> #[trigger] s[k] != sep(),
            found >= 2 ==> p1 < p2 < idx && s[p2 as int] == sep() && forall|k: int|
                p1 < k < p2 ==> #[trigger] s[k] != sep(),
            found == 2 ==> forall|k: int| p2 < k < idx ==> #[trigger] s[k] != sep(),
            found == 3 ==> p2 < p3 < idx && s[p3 as int] == sep(),
        decreases s.len() - idx,
    {
        if v[idx] == sep_char {
            if found == 0 {
                p1 = idx;
                found = 1;
            } else if found == 1 {
                p2 = idx;
                found = 2;
            } else if found == 2 {
                p3 = idx;
                found = 3;
            }
        }
        idx = idx + 1;
    }
    proof {
        if found == 2 {
            assert(two_seps_at(s, p1 as int, p2 as int));
        } else {
            assert forall|i: int, j: int| !two_seps_at(s, i, j) by {
                if two_seps_at(s, i, j) {
                    if found == 0 {
                        assert(s[i] == sep());
                    } else if found == 1 {
                        assert(s[j] == sep());
                        assert(s[i] == sep());
                    } else {
                        assert(s[p1 as int] == sep() && s[p2 as int] == sep() && s[p3 as int]
                            == sep());
                    }
                }
            }
        }
    }
    if found != 2 {
        return Err(
            AppError::invalid(
                "title",
                "must use MMDD｜类型｜主题 with exactly two full-width separators",
            ),
        );
    }
    proof {
        let (i, j) = choose|i: int, j: int| two_seps_at(s, i, j);
        lemma_two_seps_unique(s, i, j, p1 as int, p2 as int);
    }
    let date = slice_of(v.as_slice(), 0, p1);
    assert(date@ =~= s.take(p1 as int));
    if !(date.len() == 4 && crate::reference::chars_all_digits(date.as_slice())) {
        return Err(AppError::invalid("title", "MMDD must contain four digits"));
    }
    let d0 = (date[0] as u32 - '0' as u32) as u32;
    let d1 = (date[1] as u32 - '0' as u32) as u32;
    let d2 = (date[2] as u32 - '0' as u32) as u32;
    let d3 = (date[3] as u32 - '0' as u32) as u32;
    assert(crate::reference::is_digit(date@[0]) && crate::reference::is_digit(date@[1])
        && crate::reference::is_digit(date@[2]) && crate::reference::is_digit(date@[3]));
    let month = d0 * 10 + d1;
    let day = d2 * 10 + d3;
    let maximum: u32 = if month == 1 || month == 3 || month == 5 || month == 7 || month == 8
        || month == 10 || month == 12 {
        31
    } else if month == 4 || month == 6 || month == 9 || month == 11 {
        30
    } else if month == 2 {
        29
    } else {
        0
    };
    if day == 0 || day > maximum {
        return Err(AppError::invalid("title", "MMDD must be a valid month and day"));
    }
    let kind = slice_of(v.as_slice(), p1 + 1, p2);
    if !task_type_ok(kind.as_slice()) {
        return Err(
            AppError::invalid(
                "title",
                "类型 must be 功能、设计、修复、优化、发布、探索、文档 or 研究",
            ),
        );
    }
    let subject = slice_of(v.as_slice(), p2 + 1, v.len());
    let trimmed = trim_chars(subject.as_slice());
    if subject.len() == 0 || !chars_equal(trimmed.as_slice(), subject.as_slice()) {
        return Err(
            AppError::invalid("title", "主题 must be non-empty without surrounding whitespace"),
        );
    }
    Ok(text)
}

} // verus!
