//! Task list filters, field projection, literal text search and cursor pagination.
//!
//! Pages are ordered by `updated_at` descending then id ascending. A cursor carries
//! the last row's position and a digest of the filters it was issued for, so it
//! cannot be replayed against other filters.
use vstd::prelude::*;
use vstd::string::StringSliceAdditionalSpecFns;

use crate::digest::{hex_decode, hex_decoded, hex_lower, rfc3339_utc, sha256_hex, spec_rfc3339_utc, spec_sha256};
use crate::error::{opt_view, AppError, AppResult};
use crate::reference::{
    all_digits, chars_all_digits, digits_value, parse_digits, parse_project_reference,
    project_reference_result, required, required_reason, spec_project_reference, ProjectReference,
    RefView,
};
use crate::text::{lemma_text_before_strict, text_before, trim, trim_chars};
use crate::text::is_blank;
use vstd::utf8::encode_utf8;
use crate::status::{parse_status_filter, StatusFilter};
use crate::text::{chars_of, str_equal, string_from_chars};

verus! {

pub const DEFAULT_TASK_PAGE_SIZE: u32 = 50;

pub const MAX_TASK_PAGE_SIZE: u32 = 200;

/// Caller options for a task list.
#[derive(Debug, Clone)]
pub struct TaskListOptions {
    pub project: Option<String>,
    pub status: Option<String>,
    pub task_key: Option<String>,
    pub query: Option<String>,
    pub page_size: Option<u32>,
    pub cursor: Option<String>,
    pub fields: Vec<String>,
}

impl Default for TaskListOptions {
    fn default() -> (r: Self)
        ensures
            r.project is None && r.status is None && r.task_key is None && r.query is None
                && r.page_size is None && r.cursor is None && r.fields@.len() == 0,
    {
        TaskListOptions {
            project: None,
            status: None,
            task_key: None,
            query: None,
            page_size: None,
            cursor: None,
            fields: Vec::new(),
        }
    }
}

/// The task fields a list may project, in wire spelling.
pub open spec fn task_field_names() -> Seq<Seq<char>> {
    seq![
        "id"@,
        "taskKey"@,
        "title"@,
        "status"@,
        "version"@,
        "goal"@,
        "scope"@,
        "acceptanceCriteria"@,
        "nextStep"@,
        "blockReason"@,
        "blockRecovery"@,
        "currentSessionId"@,
        "projectId"@,
        "componentIds"@,
        "latestCheckpointId"@,
        "closureOutcome"@,
        "closureReason"@,
        "closedAt"@,
        "createdAt"@,
        "updatedAt"@,
    ]
}

fn task_field_known(name: &str) -> (r: bool)
    ensures
        r == task_field_names().contains(name@),
{
    let names: [&str; 20] = [
        "id",
        "taskKey",
        "title",
        "status",
        "version",
        "goal",
        "scope",
        "acceptanceCriteria",
        "nextStep",
        "blockReason",
        "blockRecovery",
        "currentSessionId",
        "projectId",
        "componentIds",
        "latestCheckpointId",
        "closureOutcome",
        "closureReason",
        "closedAt",
        "createdAt",
        "updatedAt",
    ];
    let ghost spec_names = task_field_names();
    assert(names@.len() == 20);
    assert(forall|k: int| 0 <= k < 20 ==> (#[trigger] names@[k])@ == spec_names[k]);
    let mut i: usize = 0;
    while i < 20
        invariant
            i <= 20,
            spec_names == task_field_names(),
            names@.len() == 20,
            forall|k: int| 0 <= k < 20 ==> (#[trigger] names@[k])@ == spec_names[k],
            forall|k: int| 0 <= k < i ==> spec_names[k] != name@,
        decreases 20 - i,
    {
        if str_equal(names[i], name) {
            assert(spec_names[i as int] == name@);
            return true;
        }
        i = i + 1;
    }
    proof {
        if spec_names.contains(name@) {
            let k = choose|k: int| 0 <= k < spec_names.len() && spec_names[k] == name@;
            assert(spec_names[k] != name@);
        }
    }
    false
}

/// Why a projection list is refused: the first entry that is unknown or repeats an
/// earlier entry.
pub open spec fn fields_problem(f: Seq<Seq<char>>) -> Option<(int, bool)> {
    if exists|i: int| 0 <= i < f.len() && field_bad(f, i) {
        let i = choose|i: int|
            0 <= i < f.len() && field_bad(f, i) && forall|j: int| 0 <= j < i ==> !field_bad(f, j);
        Some((i, !task_field_names().contains(f[i])))
    } else {
        None
    }
}

/// Entry `i` is unknown or repeats an earlier entry.
pub open spec fn field_bad(f: Seq<Seq<char>>, i: int) -> bool {
    !task_field_names().contains(f[i]) || f.take(i).contains(f[i])
}

pub open spec fn fields_view(f: Seq<String>) -> Seq<Seq<char>> {
    f.map_values(|s: String| s@)
}

pub open spec fn fields_reason(unknown: bool) -> Seq<char> {
    if unknown {
        "unknown Task field"@
    } else {
        "duplicate Task field"@
    }
}

/// Checks a field projection list: every name must be a task field, without
/// repeats. The accepted list is returned in the given order.
pub fn validate_list_fields(fields: &Vec<String>) -> (r: AppResult<Vec<String>>)
    ensures
        match fields_problem(fields_view(fields@)) {
            None => r matches Ok(v) && fields_view(v@) == fields_view(fields@),
            Some((i, unknown)) => r matches Err(e) && e.is_invalid("fields"@, fields_reason(unknown)),
        },
{
    let ghost f = fields_view(fields@);
    let mut out: Vec<String> = Vec::new();
    let mut i: usize = 0;
    while i < fields.len()
        invariant
            f == fields_view(fields@),
            i <= fields@.len(),
            fields_view(out@) == f.take(i as int),
            out@.len() == i,
            forall|j: int| 0 <= j < i ==> !field_bad(f, j),
        decreases fields@.len() - i,
    {
        let name = fields[i].as_str();
        let known = task_field_known(name);
        let mut repeated = false;
        let mut k: usize = 0;
        while k < out.len() && !repeated
            invariant
                k <= out@.len(),
                out@.len() == i,
                i < fields@.len(),
                f == fields_view(fields@),
                fields_view(out@) == f.take(i as int),
                name@ == f[i as int],
                !repeated ==> forall|m: int| 0 <= m < k ==> (#[trigger] out@[m])@ != name@,
                repeated ==> k < out@.len() && out@[k as int]@ == name@,
            decreases out@.len() - k, (if repeated { 0int } else { 1int }),
        {
            if str_equal(out[k].as_str(), name) {
                repeated = true;
            } else {
                k = k + 1;
            }
        }
        proof {
            assert(fields_view(out@).len() == i);
            if !repeated {
                assert forall|m: int| 0 <= m < i implies f.take(i as int)[m] != f[i as int] by {
                    assert(fields_view(out@)[m] == out@[m]@);
                    assert(out@[m]@ != name@);
                }
                assert(!f.take(i as int).contains(f[i as int]));
            } else {
                assert(fields_view(out@)[k as int] == out@[k as int]@);
                assert(f.take(i as int)[k as int] == f[i as int]);
                assert(f.take(i as int).contains(f[i as int]));
            }
        }
        if !known || repeated {
            proof {
                assert(field_bad(f, i as int));
                let w = choose|w: int|
                    0 <= w < f.len() && field_bad(f, w) && forall|j: int| 0 <= j < w ==> !field_bad(f, j);
                if w < i {
                    assert(!field_bad(f, w));
                } else if w > i {
                    assert(!field_bad(f, i as int));
                }
            }
            if !known {
                return Err(AppError::invalid("fields", "unknown Task field"));
            } else {
                return Err(AppError::invalid("fields", "duplicate Task field"));
            }
        }
        out.push(fields[i].clone());
        proof {
            assert(fields_view(out@) =~= f.take(i + 1));
        }
        i = i + 1;
    }
    proof {
        assert(f.take(fields@.len() as int) =~= f);
        assert forall|w: int| 0 <= w < f.len() implies !field_bad(f, w) by {}
    }
    Ok(out)
}

/// Characters that are special in a SQL `LIKE` pattern.
/// The member names a projection keeps: with fields requested, the names at the
/// chosen positions; otherwise every member.
pub open spec fn projected_names(member_names: Seq<Seq<char>>, positions: Seq<usize>) -> Seq<Seq<char>> {
    positions.map_values(|j: usize| member_names[j as int])
}

/// Where a listed task's requested fields stand among its serialized members: for
/// each field, in the order requested, the position of the member of that name, so
/// the projected object has exactly the requested keys. With no fields requested,
/// every member is kept, in order.
pub fn project_members(member_names: &Vec<String>, fields: &Vec<String>) -> (r: Vec<usize>)
    requires
        forall|i: int| 0 <= i < fields@.len() ==> fields_view(member_names@).contains(#[trigger] fields@[i]@),
    ensures
        forall|i: int| 0 <= i < r@.len() ==> r@[i] < member_names@.len(),
        fields@.len() == 0 ==> r@.len() == member_names@.len() && forall|j: int| 0 <= j < r@.len() ==> r@[j] == j,
        fields@.len() > 0 ==> projected_names(fields_view(member_names@), r@) == fields_view(fields@),
{
    let ghost names = fields_view(member_names@);
    let mut out: Vec<usize> = Vec::new();
    if fields.len() == 0 {
        let mut j: usize = 0;
        while j < member_names.len()
            invariant
                j <= member_names@.len(),
                out@.len() == j,
                forall|m: int| 0 <= m < j ==> out@[m] == m,
            decreases member_names@.len() - j,
        {
            out.push(j);
            j = j + 1;
        }
        return out;
    }
    let mut i: usize = 0;
    while i < fields.len()
        invariant
            names == fields_view(member_names@),
            forall|i: int| 0 <= i < fields@.len() ==> names.contains(#[trigger] fields@[i]@),
            i <= fields@.len(),
            out@.len() == i,
            forall|m: int| 0 <= m < i ==> out@[m] < member_names@.len() && names[out@[m] as int] == fields@[m]@,
        decreases fields@.len() - i,
    {
        let field = fields[i].as_str();
        let mut k: usize = 0;
        while k < member_names.len() && !str_equal(member_names[k].as_str(), field)
            invariant
                names == fields_view(member_names@),
                k <= member_names@.len(),
                forall|m: int| 0 <= m < k ==> names[m] != field@,
            decreases member_names@.len() - k,
        {
            k = k + 1;
        }
        if k == member_names.len() {
            proof {
                assert(names.contains(fields@[i as int]@));
                let w = choose|w: int| 0 <= w < names.len() && names[w] == fields@[i as int]@;
                assert(names[w] != field@);
            }
        }
        proof {
            assert(k < member_names@.len());
        }
        out.push(k);
        i = i + 1;
    }
    proof {
        assert(projected_names(names, out@) =~= fields_view(fields@));
    }
    out
}

pub open spec fn like_special(c: char) -> bool {
    c == '\\' || c == '%' || c == '_'
}

/// The query with `\`, `%` and `_` escaped by a backslash.
pub open spec fn escape_like(q: Seq<char>) -> Seq<char>
    decreases q.len(),
{
    if q.len() == 0 {
        Seq::empty()
    } else {
        let piece = if like_special(q[0]) { seq!['\\', q[0]] } else { seq![q[0]] };
        piece + escape_like(q.drop_first())
    }
}

/// Reads an escaped pattern body back: a backslash takes the next character literally.
pub open spec fn unescape_like(p: Seq<char>) -> Seq<char>
    decreases p.len(),
{
    if p.len() == 0 {
        Seq::empty()
    } else if p[0] == '\\' && p.len() >= 2 {
        seq![p[1]] + unescape_like(p.subrange(2, p.len() as int))
    } else {
        seq![p[0]] + unescape_like(p.drop_first())
    }
}

/// A substring-match `LIKE` pattern matching `q` literally.
pub open spec fn like_pattern(q: Seq<char>) -> Seq<char> {
    seq!['%'] + escape_like(q) + seq!['%']
}

proof fn lemma_escape_like_append(a: Seq<char>, b: Seq<char>)
    ensures
        escape_like(a + b) == escape_like(a) + escape_like(b),
    decreases a.len(),
{
    if a.len() == 0 {
        assert(a + b =~= b);
    } else {
        assert((a + b).drop_first() =~= a.drop_first() + b);
        lemma_escape_like_append(a.drop_first(), b);
        assert((a + b)[0] == a[0]);
    }
}

proof fn lemma_escape_like_single(c: char)
    ensures
        escape_like(seq![c]) == (if like_special(c) { seq!['\\', c] } else { seq![c] }),
{
    reveal_with_fuel(escape_like, 2);
    assert(seq![c].drop_first() =~= Seq::<char>::empty());
    assert(escape_like(Seq::<char>::empty()) =~= Seq::<char>::empty());
    assert(seq!['\\', c] + Seq::<char>::empty() =~= seq!['\\', c]);
    assert(seq![c] + Seq::<char>::empty() =~= seq![c]);
}

/// The `LIKE` pattern for a search text: `%`, the escaped text, `%`.
pub fn escaped_like_pattern(query: &str) -> (r: String)
    ensures
        r@ == like_pattern(query@),
{
    let q = chars_of(query);
    let mut body: Vec<char> = Vec::new();
    let mut i: usize = 0;
    assert(q@.take(0) =~= Seq::<char>::empty());
    while i < q.len()
        invariant
            i <= q@.len(),
            body@ == escape_like(q@.take(i as int)),
        decreases q@.len() - i,
    {
        let c = q[i];
        proof {
            assert(q@.take(i + 1) =~= q@.take(i as int) + seq![c]);
            lemma_escape_like_append(q@.take(i as int), seq![c]);
            lemma_escape_like_single(c);
        }
        if c == '\\' || c == '%' || c == '_' {
            body.push('\\');
        }
        body.push(c);
        proof {
            if like_special(c) {
                assert(body@ =~= escape_like(q@.take(i as int)) + seq!['\\', c]);
            } else {
                assert(body@ =~= escape_like(q@.take(i as int)) + seq![c]);
            }
        }
        i = i + 1;
    }
    assert(q@.take(q@.len() as int) =~= q@);
    let mut all: Vec<char> = Vec::new();
    all.push('%');
    let mut k: usize = 0;
    while k < body.len()
        invariant
            k <= body@.len(),
            all@ == seq!['%'] + body@.take(k as int),
        decreases body@.len() - k,
    {
        all.push(body[k]);
        proof {
            assert(body@.take(k + 1) =~= body@.take(k as int).push(body@[k as int]));
        }
        k = k + 1;
    }
    all.push('%');
    proof {
        assert(body@.take(body@.len() as int) =~= body@);
        assert(all@ =~= like_pattern(query@));
    }
    string_from_chars(all.as_slice())
}

/// Escaping is lossless: the escaped body reads back as exactly the search text.
pub proof fn law_like_escape_round_trip(q: Seq<char>)
    ensures
        unescape_like(escape_like(q)) == q,
    decreases q.len(),
{
    if q.len() > 0 {
        law_like_escape_round_trip(q.drop_first());
        let rest = escape_like(q.drop_first());
        if like_special(q[0]) {
            let p = seq!['\\', q[0]] + rest;
            assert(p.subrange(2, p.len() as int) =~= rest);
            assert(unescape_like(p) == seq![q[0]] + unescape_like(rest));
        } else {
            let p = seq![q[0]] + rest;
            assert(p.drop_first() =~= rest);
            if q[0] == '\\' {
                assert(false);
            }
            assert(unescape_like(p) == seq![q[0]] + unescape_like(rest));
        }
        assert(seq![q[0]] + q.drop_first() =~= q);
    }
}

/// Big-endian bytes of a 64-bit length.
pub open spec fn be64(n: u64) -> Seq<u8> {
    seq![
        ((n >> 56u64) & 0xffu64) as u8,
        ((n >> 48u64) & 0xffu64) as u8,
        ((n >> 40u64) & 0xffu64) as u8,
        ((n >> 32u64) & 0xffu64) as u8,
        ((n >> 24u64) & 0xffu64) as u8,
        ((n >> 16u64) & 0xffu64) as u8,
        ((n >> 8u64) & 0xffu64) as u8,
        (n & 0xffu64) as u8,
    ]
}

/// One framed filter value: `0` when absent, otherwise `1`, the UTF-8 length as
/// eight big-endian bytes, and the UTF-8 bytes.
pub open spec fn frame(v: Option<Seq<u8>>) -> Seq<u8> {
    match v {
        None => seq![0u8],
        Some(b) => seq![1u8] + be64(b.len() as u64) + b,
    }
}

/// The eight length bytes determine the length.
proof fn lemma_be64_injective(n: u64, m: u64)
    requires
        be64(n) == be64(m),
    ensures
        n == m,
{
    assert(be64(n)[0] == be64(m)[0] && be64(n)[1] == be64(m)[1] && be64(n)[2] == be64(m)[2]
        && be64(n)[3] == be64(m)[3] && be64(n)[4] == be64(m)[4] && be64(n)[5] == be64(m)[5]
        && be64(n)[6] == be64(m)[6] && be64(n)[7] == be64(m)[7]);
    assert(
        (((n >> 56u64) & 0xffu64) as u8 == ((m >> 56u64) & 0xffu64) as u8 && ((n >> 48u64)
            & 0xffu64) as u8 == ((m >> 48u64) & 0xffu64) as u8 && ((n >> 40u64) & 0xffu64) as u8
            == ((m >> 40u64) & 0xffu64) as u8 && ((n >> 32u64) & 0xffu64) as u8 == ((m >> 32u64)
            & 0xffu64) as u8 && ((n >> 24u64) & 0xffu64) as u8 == ((m >> 24u64) & 0xffu64) as u8
            && ((n >> 16u64) & 0xffu64) as u8 == ((m >> 16u64) & 0xffu64) as u8 && ((n >> 8u64)
            & 0xffu64) as u8 == ((m >> 8u64) & 0xffu64) as u8 && (n & 0xffu64) as u8 == (m
            & 0xffu64) as u8) ==> n == m
    ) by (bit_vector);
}

/// A value whose length fits the eight length bytes.
pub open spec fn frameable(v: Option<Seq<u8>>) -> bool {
    v matches Some(b) ==> b.len() <= u64::MAX
}

/// A frame followed by anything is read back as its value and what follows it.
proof fn lemma_frame_prefix(x: Option<Seq<u8>>, a: Seq<u8>, y: Option<Seq<u8>>, b: Seq<u8>)
    requires
        frameable(x),
        frameable(y),
        frame(x) + a == frame(y) + b,
    ensures
        x == y,
        a == b,
{
    let l = frame(x) + a;
    let r = frame(y) + b;
    assert(l[0] == r[0]);
    match (x, y) {
        (None, None) => {
            assert(a =~= l.drop_first());
            assert(b =~= r.drop_first());
        },
        (Some(p), Some(q)) => {
            assert(be64(p.len() as u64) =~= l.subrange(1, 9));
            assert(be64(q.len() as u64) =~= r.subrange(1, 9));
            lemma_be64_injective(p.len() as u64, q.len() as u64);
            assert(p.len() == q.len());
            let end: int = 9 + p.len() as int;
            assert(p =~= l.subrange(9, end));
            assert(q =~= r.subrange(9, end));
            assert(a =~= l.subrange(end, l.len() as int));
            assert(b =~= r.subrange(end, r.len() as int));
        },
        (None, Some(q)) => {
            assert(l[0] == 0u8 && r[0] == 1u8);
        },
        (Some(p), None) => {
            assert(l[0] == 1u8 && r[0] == 0u8);
        },
    }
}

/// The framed filters determine the filters: two different filter sets never feed
/// the same bytes to SHA-256, so a cursor is bound to exactly the filters it was
/// issued for (barring a SHA-256 collision).
pub proof fn law_filter_frames_injective(
    s1: Option<Seq<u8>>,
    k1: Option<Seq<u8>>,
    q1: Option<Seq<u8>>,
    p1: Option<i64>,
    s2: Option<Seq<u8>>,
    k2: Option<Seq<u8>>,
    q2: Option<Seq<u8>>,
    p2: Option<i64>,
)
    requires
        frameable(s1) && frameable(k1) && frameable(q1),
        frameable(s2) && frameable(k2) && frameable(q2),
        frame(s1) + frame(k1) + frame(q1) + frame(id_bytes(p1)) == frame(s2) + frame(k2) + frame(q2)
            + frame(id_bytes(p2)),
    ensures
        s1 == s2 && k1 == k2 && q1 == q2 && p1 == p2,
{
    let e: Seq<u8> = Seq::empty();
    let f1 = frame(id_bytes(p1));
    let f2 = frame(id_bytes(p2));
    let t1 = frame(q1) + (f1 + e);
    let t2 = frame(q2) + (f2 + e);
    let u1 = frame(k1) + t1;
    let u2 = frame(k2) + t2;
    assert(frame(s1) + frame(k1) + frame(q1) + f1 =~= frame(s1) + u1);
    assert(frame(s2) + frame(k2) + frame(q2) + f2 =~= frame(s2) + u2);
    lemma_frame_prefix(s1, u1, s2, u2);
    lemma_frame_prefix(k1, t1, k2, t2);
    lemma_frame_prefix(q1, f1 + e, q2, f2 + e);
    lemma_id_frame(p1, p2);
}

proof fn lemma_id_frame(p1: Option<i64>, p2: Option<i64>)
    requires
        frame(id_bytes(p1)) + Seq::<u8>::empty() == frame(id_bytes(p2)) + Seq::<u8>::empty(),
    ensures
        p1 == p2,
{
    let e = Seq::<u8>::empty();
    lemma_frame_prefix(id_bytes(p1), e, id_bytes(p2), e);
    if p1 is Some && p2 is Some {
        let a = p1.unwrap();
        let b = p2.unwrap();
        lemma_be64_injective(a as u64, b as u64);
        assert(a as u64 == b as u64 ==> a == b) by (bit_vector);
    }
}

/// A project id as a framed value: its eight big-endian bytes.
pub open spec fn id_bytes(p: Option<i64>) -> Option<Seq<u8>> {
    match p {
        Some(i) => Some(be64(i as u64)),
        None => None,
    }
}

pub open spec fn opt_bytes(v: Option<&str>) -> Option<Seq<u8>> {
    match v {
        Some(s) => Some(s.spec_bytes()),
        None => None,
    }
}

fn push_frame(out: &mut Vec<u8>, v: Option<&str>)
    ensures
        final(out)@ == old(out)@ + frame(opt_bytes(v)),
{
    match v {
        None => {
            out.push(0u8);
            assert(final(out)@ =~= old(out)@ + frame(opt_bytes(v)));
        },
        Some(s) => {
            let b = s.as_bytes();
            let n = b.len() as u64;
            out.push(1u8);
            out.push(((n >> 56u64) & 0xffu64) as u8);
            out.push(((n >> 48u64) & 0xffu64) as u8);
            out.push(((n >> 40u64) & 0xffu64) as u8);
            out.push(((n >> 32u64) & 0xffu64) as u8);
            out.push(((n >> 24u64) & 0xffu64) as u8);
            out.push(((n >> 16u64) & 0xffu64) as u8);
            out.push(((n >> 8u64) & 0xffu64) as u8);
            out.push((n & 0xffu64) as u8);
            let ghost mid = out@;
            let mut i: usize = 0;
            while i < b.len()
                invariant
                    i <= b@.len(),
                    out@ == mid + b@.take(i as int),
                decreases b@.len() - i,
            {
                out.push(b[i]);
                proof {
                    assert(b@.take(i + 1) =~= b@.take(i as int).push(b@[i as int]));
                }
                i = i + 1;
            }
            proof {
                assert(b@.take(b@.len() as int) =~= b@);
                assert(mid =~= old(out)@ + seq![1u8] + be64(n));
                assert(final(out)@ =~= old(out)@ + frame(opt_bytes(v)));
            }
        },
    }
}

fn push_id_frame(out: &mut Vec<u8>, p: Option<i64>)
    ensures
        final(out)@ == old(out)@ + frame(id_bytes(p)),
{
    match p {
        None => {
            out.push(0u8);
            assert(final(out)@ =~= old(out)@ + frame(id_bytes(p)));
        },
        Some(i) => {
            let v = i as u64;
            out.push(1u8);
            let n: u64 = 8;
            out.push(((n >> 56u64) & 0xffu64) as u8);
            out.push(((n >> 48u64) & 0xffu64) as u8);
            out.push(((n >> 40u64) & 0xffu64) as u8);
            out.push(((n >> 32u64) & 0xffu64) as u8);
            out.push(((n >> 24u64) & 0xffu64) as u8);
            out.push(((n >> 16u64) & 0xffu64) as u8);
            out.push(((n >> 8u64) & 0xffu64) as u8);
            out.push((n & 0xffu64) as u8);
            out.push(((v >> 56u64) & 0xffu64) as u8);
            out.push(((v >> 48u64) & 0xffu64) as u8);
            out.push(((v >> 40u64) & 0xffu64) as u8);
            out.push(((v >> 32u64) & 0xffu64) as u8);
            out.push(((v >> 24u64) & 0xffu64) as u8);
            out.push(((v >> 16u64) & 0xffu64) as u8);
            out.push(((v >> 8u64) & 0xffu64) as u8);
            out.push((v & 0xffu64) as u8);
            assert(be64(v).len() == 8);
            assert(final(out)@ =~= old(out)@ + frame(id_bytes(p)));
        },
    }
}

/// The digest binding a cursor to the filters it was issued for: the status, task
/// key and query texts and the id the project filter resolved to.
pub open spec fn spec_filter_digest(status: Option<&str>, key: Option<&str>, query: Option<&str>, project: Option<i64>) -> Seq<char> {
    hex_lower(
        spec_sha256(
            frame(opt_bytes(status)) + frame(opt_bytes(key)) + frame(opt_bytes(query)) + frame(
                id_bytes(project),
            ),
        ),
    )
}

/// SHA-256 (lowercase hex) over the four framed filter values.
pub fn task_list_filter_digest(status: Option<&str>, key: Option<&str>, query: Option<&str>, project: Option<i64>) -> (r: String)
    ensures
        r@ == spec_filter_digest(status, key, query, project),
{
    let mut bytes: Vec<u8> = Vec::new();
    push_frame(&mut bytes, status);
    push_frame(&mut bytes, key);
    push_frame(&mut bytes, query);
    push_id_frame(&mut bytes, project);
    assert(bytes@ =~= frame(opt_bytes(status)) + frame(opt_bytes(key)) + frame(opt_bytes(query))
        + frame(id_bytes(project)));
    sha256_hex(bytes.as_slice())
}

/// The validated shape of a task list request.
#[derive(Debug, Clone)]
pub struct TaskListPlan {
    pub status: Option<StatusFilter>,
    pub task_key: Option<String>,
    /// A query naming a task by number (`n` or `#n`) matches exactly that task id.
    pub task_id: Option<i64>,
    /// `LIKE` pattern for title, goal and scope, for any other query.
    pub pattern: Option<String>,
    /// The project filter, resolved to an id by the caller.
    pub project: Option<ProjectReference>,
    pub fields: Vec<String>,
    pub page_size: u32,
    /// Rows to fetch: one more than the page, to learn whether more follow.
    pub fetch: i64,
}

/// The UTF-8 bytes of an optional text.
pub open spec fn opt_text_bytes(v: Option<String>) -> Option<Seq<u8>> {
    match v {
        Some(s) => Some(encode_utf8(s@)),
        None => None,
    }
}

/// The digits of a query that names a task by number: after trimming, bare digits
/// or `#` followed by digits.
pub open spec fn query_digits(q: Seq<char>) -> Option<Seq<char>> {
    let t = trim(q);
    if t.len() > 0 && all_digits(t) {
        Some(t)
    } else if t.len() > 1 && t[0] == '#' && all_digits(t.drop_first()) {
        Some(t.drop_first())
    } else {
        None
    }
}

pub open spec fn query_range_reason() -> Seq<char> {
    "numeric task id is out of range"@
}

/// Why list options are refused, as (field, reason), in check order: status,
/// taskKey, query, project, fields, pageSize.
pub open spec fn list_problem(o: TaskListOptions) -> Option<(Seq<char>, Seq<char>)> {
    if o.status matches Some(s) && crate::status::spec_parse_filter(s@) is None {
        Some(("status"@, crate::status::status_reason()))
    } else if o.task_key matches Some(k) && is_blank(k@) {
        Some(("taskKey"@, required_reason()))
    } else if o.query matches Some(q) && is_blank(q@) {
        Some(("query"@, required_reason()))
    } else if o.query is Some && query_digits(o.query.unwrap()@) is Some && digits_value(
        query_digits(o.query.unwrap()@).unwrap(),
    ) > i64::MAX {
        Some(("query"@, query_range_reason()))
    } else if o.project matches Some(p) && spec_project_reference(p@) is Invalid {
        Some(("project"@, spec_project_reference(o.project.unwrap()@)->Invalid_0))
    } else if fields_problem(fields_view(o.fields@)) is Some {
        Some(("fields"@, fields_reason(fields_problem(fields_view(o.fields@)).unwrap().1)))
    } else if o.page_size matches Some(n) && (n < 1 || n > MAX_TASK_PAGE_SIZE) {
        Some(("pageSize"@, "must be between 1 and 200"@))
    } else {
        None
    }
}

/// Reads a query as a task number: `None` when it is not one, `Some(None)` when the
/// number does not fit an `i64`.
fn query_task_id(q: &str) -> (r: Option<Option<i64>>)
    ensures
        match query_digits(q@) {
            None => r is None,
            Some(d) => if digits_value(d) <= i64::MAX {
                r == Some(Some(digits_value(d) as i64))
            } else {
                r == Some(None::<i64>)
            },
        },
{
    let all = chars_of(q);
    let t = trim_chars(all.as_slice());
    if t.len() > 0 && chars_all_digits(t.as_slice()) {
        return Some(parse_digits(t.as_slice()));
    }
    if t.len() > 1 && t[0] == '#' {
        let mut rest: Vec<char> = Vec::new();
        let mut i: usize = 1;
        while i < t.len()
            invariant
                1 <= i <= t@.len(),
                rest@ == t@.subrange(1, i as int),
            decreases t@.len() - i,
        {
            rest.push(t[i]);
            i = i + 1;
        }
        assert(rest@ =~= t@.drop_first());
        if chars_all_digits(rest.as_slice()) {
            return Some(parse_digits(rest.as_slice()));
        }
    }
    None
}

/// Validates list options (everything but the cursor, which needs decoding first).
/// A query that names a task by number becomes an exact id filter, any other query a
/// `LIKE` pattern; the plan also carries the parsed filters, the project reference,
/// the projection and the page size (50 by default).
pub fn plan_task_list(options: &TaskListOptions) -> (r: AppResult<TaskListPlan>)
    ensures
        match list_problem(*options) {
            Some((field, reason)) => r matches Err(e) && e.is_invalid(field, reason),
            None => r matches Ok(plan) && {
                &&& 1 <= plan.page_size <= MAX_TASK_PAGE_SIZE
                &&& plan.fetch == plan.page_size + 1
                &&& (options.page_size is None ==> plan.page_size == DEFAULT_TASK_PAGE_SIZE)
                &&& (options.page_size matches Some(n) ==> plan.page_size == n)
                &&& fields_view(plan.fields@) == fields_view(options.fields@)
                &&& opt_view(plan.task_key) == opt_view(options.task_key)
                &&& (options.query is Some && query_digits(options.query.unwrap()@) is Some ==> (
                plan.task_id == Some(digits_value(query_digits(options.query.unwrap()@).unwrap()) as i64)
                    && plan.pattern is None))
                &&& (options.query is Some && query_digits(options.query.unwrap()@) is None
                    ==> plan.task_id is None)
                &&& (options.query is Some && query_digits(options.query.unwrap()@) is None ==> (
                plan.pattern matches Some(p) && p@ == like_pattern(options.query.unwrap()@)))
                &&& (options.query is None ==> plan.pattern is None && plan.task_id is None)
                &&& (options.status is None ==> plan.status is None)
                &&& (options.status matches Some(s) ==> plan.status
                    == crate::status::spec_parse_filter(s@))
                &&& (options.project is None ==> plan.project is None)
                &&& (options.project matches Some(p) ==> (plan.project matches Some(pr)
                    && project_reference_result(p@, Ok(pr))))
            },
        },
{
    let status = match &options.status {
        Some(s) => Some(parse_status_filter(s.as_str())?),
        None => None,
    };
    let task_key = match &options.task_key {
        Some(k) => Some(required("taskKey", k.as_str())?),
        None => None,
    };
    let mut task_id: Option<i64> = None;
    let mut pattern: Option<String> = None;
    match &options.query {
        Some(q) => {
            let _ = required("query", q.as_str())?;
            let parsed = query_task_id(q.as_str());
            match parsed {
                Some(Some(id)) => {
                    task_id = Some(id);
                },
                Some(None) => {
                    return Err(AppError::invalid("query", "numeric task id is out of range"));
                },
                None => {
                    pattern = Some(escaped_like_pattern(q.as_str()));
                },
            }
        },
        None => {},
    }
    let project = match &options.project {
        Some(p) => Some(parse_project_reference(p.as_str())?),
        None => None,
    };
    let fields = validate_list_fields(&options.fields)?;
    let page_size = match options.page_size {
        Some(n) => n,
        None => DEFAULT_TASK_PAGE_SIZE,
    };
    if page_size < 1 || page_size > MAX_TASK_PAGE_SIZE {
        return Err(AppError::invalid("pageSize", "must be between 1 and 200"));
    }
    Ok(
        TaskListPlan {
            status,
            task_key,
            task_id,
            pattern,
            project,
            fields,
            page_size,
            fetch: page_size as i64 + 1,
        },
    )
}

/// The digest a cursor of these options is bound to, once the project filter has
/// been resolved to `project_id` (`None` without a project filter).
pub fn list_filter_digest(options: &TaskListOptions, project_id: Option<i64>) -> (r: String)
    ensures
        r@ == hex_lower(
            spec_sha256(
                frame(opt_text_bytes(options.status)) + frame(opt_text_bytes(options.task_key))
                    + frame(opt_text_bytes(options.query)) + frame(id_bytes(project_id)),
            ),
        ),
{
    let status: Option<&str> = match &options.status {
        Some(s) => Some(s.as_str()),
        None => None,
    };
    let key: Option<&str> = match &options.task_key {
        Some(k) => Some(k.as_str()),
        None => None,
    };
    let query: Option<&str> = match &options.query {
        Some(q) => Some(q.as_str()),
        None => None,
    };
    task_list_filter_digest(status, key, query, project_id)
}

/// A decoded task list cursor.
#[derive(Debug, Clone)]
pub struct TaskListCursor {
    pub version: u8,
    pub updated_at: String,
    pub id: i64,
    pub filter_digest: String,
}

pub open spec fn cursor_invalid_reason() -> Seq<char> {
    "must be a cursor returned by task list"@
}

/// Decodes the hexadecimal cursor text into its JSON bytes. Empty text, text over
/// 4096 bytes and text that is not hexadecimal are refused.
pub fn cursor_bytes(value: &str) -> (r: AppResult<Vec<u8>>)
    ensures
        value.len() == 0 || value.len() > 4096 ==> (r matches Err(e)
            && e.is_invalid("cursor"@, cursor_invalid_reason())),
        0 < value.len() <= 4096 ==> match hex_decoded(value.spec_bytes()) {
            Some(b) => r matches Ok(v) && v@ == b,
            None => r matches Err(e) && e.is_invalid("cursor"@, cursor_invalid_reason()),
        },
{
    let n = value.len();
    if n == 0 || n > 4096 {
        return Err(AppError::invalid("cursor", "must be a cursor returned by task list"));
    }
    match hex_decode(value.as_bytes()) {
        Some(b) => Ok(b),
        None => Err(AppError::invalid("cursor", "must be a cursor returned by task list")),
    }
}

/// Checks a decoded cursor: format version 1, a positive id, an RFC 3339 position,
/// and the digest of the current filters.
pub fn check_cursor(cursor: &TaskListCursor, filter_digest: &str) -> (r: AppResult<()>)
    ensures
        cursor.version != 1 || cursor.id <= 0 || spec_rfc3339_utc(cursor.updated_at@) is None
            ==> (r matches Err(e) && e.is_invalid("cursor"@, cursor_invalid_reason())),
        cursor.version == 1 && cursor.id > 0 && spec_rfc3339_utc(cursor.updated_at@) is Some
            ==> (if cursor.filter_digest@ == filter_digest@ {
            r is Ok
        } else {
            r matches Err(e) && e.is_invalid("cursor"@, "does not match the current filters"@)
        }),
{
    if cursor.version != 1 || cursor.id <= 0 || rfc3339_utc(cursor.updated_at.as_str()).is_none() {
        return Err(AppError::invalid("cursor", "must be a cursor returned by task list"));
    }
    if !str_equal(cursor.filter_digest.as_str(), filter_digest) {
        return Err(AppError::invalid("cursor", "does not match the current filters"));
    }
    Ok(())
}

/// The text of a cursor: lowercase hexadecimal of its encoded bytes.
pub fn cursor_text(encoded: &[u8]) -> (r: String)
    ensures
        r@ == hex_lower(encoded@),
{
    crate::digest::hex_encode(encoded)
}

/// The cursor handed out with a page: when more rows follow, the position of the
/// page's last row (its update time and id) bound to the filter digest.
pub fn next_cursor(last: Option<(&str, i64)>, has_more: bool, filter_digest: &str) -> (r: Option<TaskListCursor>)
    ensures
        has_more && last is Some ==> (r matches Some(c) && c.version == 1 && c.updated_at@
            == last.unwrap().0@ && c.id == last.unwrap().1 && c.filter_digest@ == filter_digest@),
        !(has_more && last is Some) ==> r is None,
{
    match last {
        Some((updated_at, id)) => if has_more {
            Some(
                TaskListCursor {
                    version: 1,
                    updated_at: crate::text::owned(updated_at),
                    id,
                    filter_digest: crate::text::owned(filter_digest),
                },
            )
        } else {
            None
        },
        None => None,
    }
}

/// Splits fetched rows into a page of at most `limit` rows and whether more follow.
pub fn take_page<T>(rows: Vec<T>, limit: usize) -> (r: (Vec<T>, bool))
    ensures
        r.1 == (rows@.len() > limit),
        r.0@ == (if rows@.len() > limit { rows@.take(limit as int) } else { rows@ }),
        (r.0@, r.1) == split_page(rows@, limit as int),
{
    let mut rows = rows;
    let more = rows.len() > limit;
    if more {
        rows.truncate(limit);
    }
    (rows, more)
}

/// Pagination never returns more than the limit, and reports more rows exactly when
/// some were cut off.
pub proof fn law_page_bounds<T>(rows: Seq<T>, limit: usize)
    ensures
        (if rows.len() > limit { rows.take(limit as int) } else { rows }).len() <= limit
            || rows.len() <= limit,
        rows.len() > limit ==> rows.take(limit as int).len() == limit,
{
}

/// The rows a list request fetches when its cursor stands after the first `start`
/// rows of the ordered result: the next `k + 1` rows, or fewer at the end.
pub open spec fn fetched_window<T>(rows: Seq<T>, start: int, k: int) -> Seq<T> {
    rows.subrange(start, if start + k + 1 <= rows.len() { start + k + 1 } else { rows.len() as int })
}

/// What `take_page` makes of a fetched window: the page and whether more follow.
pub open spec fn split_page<T>(window: Seq<T>, k: int) -> (Seq<T>, bool) {
    (if window.len() > k { window.take(k) } else { window }, window.len() > k)
}

/// The rows of every page from position `start` on, each request continuing after
/// the previous page's last row until a page reports that no more follow.
pub open spec fn pages_from<T>(rows: Seq<T>, start: int, k: int) -> Seq<T>
    decreases rows.len() - start,
{
    let (page, more) = split_page(fetched_window(rows, start, k), k);
    if k >= 1 && more && 0 <= start < rows.len() {
        page + pages_from(rows, start + k, k)
    } else {
        page
    }
}

/// Following the cursors through a fixed, ordered result yields every row exactly
/// once and in order: each page holds at most `k` rows, every page that reports
/// more holds exactly `k`, and the pages concatenated are the whole result.
pub proof fn law_pages_cover_the_result<T>(rows: Seq<T>, start: int, k: int)
    requires
        k >= 1,
        0 <= start <= rows.len(),
    ensures
        pages_from(rows, start, k) == rows.subrange(start, rows.len() as int),
        split_page(fetched_window(rows, start, k), k).0.len() <= k,
        split_page(fetched_window(rows, start, k), k).1 ==> split_page(
            fetched_window(rows, start, k),
            k,
        ).0.len() == k,
    decreases rows.len() - start,
{
    let w = fetched_window(rows, start, k);
    let (page, more) = split_page(w, k);
    if more && start < rows.len() {
        law_pages_cover_the_result(rows, start + k, k);
        assert(page =~= rows.subrange(start, start + k));
        assert(rows.subrange(start, start + k) + rows.subrange(start + k, rows.len() as int)
            =~= rows.subrange(start, rows.len() as int));
    } else {
        assert(page =~= rows.subrange(start, rows.len() as int));
    }
}

/// Row `a` is listed before row `b`, each given by its update time and id: the later
/// update time first (text order of the timestamps), and for equal update times the
/// smaller id first.
pub open spec fn listed_before(a: (Seq<char>, int), b: (Seq<char>, int)) -> bool {
    text_before(b.0, a.0) || (a.0 == b.0 && a.1 < b.1)
}

/// Rows strictly in list order: update time descending, then id ascending.
pub open spec fn in_list_order(rows: Seq<(Seq<char>, int)>) -> bool {
    forall|i: int, j: int|
        0 <= i < j < rows.len() ==> listed_before(#[trigger] rows[i], #[trigger] rows[j])
}

/// The condition a cursor at `position` puts on a row: an earlier update time, or the
/// same update time and a larger id.
pub open spec fn after_cursor(row: (Seq<char>, int), position: (Seq<char>, int)) -> bool {
    text_before(row.0, position.0) || (row.0 == position.0 && row.1 > position.1)
}

/// In a result kept in list order, the rows that meet a cursor taken from the row at
/// position `i` are exactly the rows after it: the next request continues at `i + 1`
/// and neither repeats nor skips a row.
pub proof fn law_cursor_resumes_after_its_row(rows: Seq<(Seq<char>, int)>, i: int)
    requires
        in_list_order(rows),
        0 <= i < rows.len(),
    ensures
        forall|j: int| 0 <= j < rows.len() ==> (after_cursor(#[trigger] rows[j], rows[i]) <==> i < j),
{
    assert forall|j: int| 0 <= j < rows.len() implies (after_cursor(#[trigger] rows[j], rows[i])
        <==> i < j) by {
        lemma_text_before_strict(rows[j].0, rows[i].0);
        lemma_text_before_strict(rows[i].0, rows[j].0);
        if j < i {
            assert(listed_before(rows[j], rows[i]));
        } else if i < j {
            assert(listed_before(rows[i], rows[j]));
        }
    }
}

/// Pages taken from a result in list order come in list order, concatenated: sorted
/// by update time descending, then id ascending.
pub proof fn law_pages_keep_list_order(rows: Seq<(Seq<char>, int)>, start: int, k: int)
    requires
        in_list_order(rows),
        k >= 1,
        0 <= start <= rows.len(),
    ensures
        in_list_order(pages_from(rows, start, k)),
{
    law_pages_cover_the_result(rows, start, k);
    let rest = rows.subrange(start, rows.len() as int);
    assert forall|i: int, j: int| 0 <= i < j < rest.len() implies listed_before(
        #[trigger] rest[i],
        #[trigger] rest[j],
    ) by {
        assert(rest[i] == rows[start + i] && rest[j] == rows[start + j]);
        assert(listed_before(rows[start + i], rows[start + j]));
    }
}

} // verus!
