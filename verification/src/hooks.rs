//! Host hook observations. Observations never grant execution authority or change
//! task progress; they are deduplicated by event id and content fingerprint.
use vstd::prelude::*;
use vstd::string::StringSliceAdditionalSpecFns;
use vstd::seq_lib::lemma_concat_associative;
use vstd::utf8::encode_utf8;

use crate::digest::{hex_lower, rfc3339_utc, sha256_hex, spec_rfc3339_utc, spec_sha256};
use crate::error::{opt_view, AppError, AppResult, ErrorCode, ErrorDetails};
use crate::sessions::SessionState;
use crate::text::{chars_of, str_equal, string_from_chars};

verus! {

/// Largest accepted event text.
pub const INPUT_LIMIT: usize = 16384;

/// Most observations kept per session.
pub const EVENT_LIMIT: i64 = 10000;

/// A host hook event as submitted.
#[derive(Debug, Clone)]
pub struct HookEventInput {
    pub schema_version: u32,
    pub session_id: String,
    pub source: String,
    pub external_session_id: String,
    pub event_id: String,
    pub kind: String,
    pub occurred_at: String,
}

pub open spec fn id_char(c: char) -> bool {
    ('a' <= c && c <= 'z') || ('A' <= c && c <= 'Z') || ('0' <= c && c <= '9') || c == '_' || c
        == '-' || c == '.' || c == ':'
}

/// `s` contains `://`.
pub open spec fn has_scheme_marker(s: Seq<char>) -> bool {
    exists|i: int| 0 <= i && i + 2 < s.len() && #[trigger] s[i] == ':' && s[i + 1] == '/' && s[i + 2] == '/'
}

/// A bounded ASCII identifier: 1..=`limit` characters from `[A-Za-z0-9_.:-]`, without
/// `://`.
pub open spec fn identifier_ok(s: Seq<char>, limit: int) -> bool {
    &&& s.len() > 0
    &&& s.len() <= limit
    &&& forall|i: int| 0 <= i < s.len() ==> id_char(#[trigger] s[i])
    &&& !has_scheme_marker(s)
}

/// Checks an identifier field.
pub fn identifier(field: &str, value: &str, limit: usize) -> (r: AppResult<()>)
    ensures
        identifier_ok(value@, limit as int) ==> r is Ok,
        !identifier_ok(value@, limit as int) ==> (r matches Err(e) && e.is_invalid(
            field@,
            "requires a bounded ASCII identifier"@,
        )),
{
    let v = chars_of(value);
    if v.len() == 0 || v.len() > limit {
        return Err(AppError::invalid(field, "requires a bounded ASCII identifier"));
    }
    let mut i: usize = 0;
    while i < v.len()
        invariant
            i <= v@.len(),
            v@ == value@,
            forall|k: int| 0 <= k < i ==> id_char(#[trigger] v@[k]),
            forall|k: int| 0 <= k && k + 2 < v@.len() && k + 2 < i ==> !(#[trigger] v@[k] == ':' && v@[k + 1]
                == '/' && v@[k + 2] == '/'),
        decreases v@.len() - i,
    {
        let c = v[i];
        let ok = ('a' <= c && c <= 'z') || ('A' <= c && c <= 'Z') || ('0' <= c && c <= '9') || c
            == '_' || c == '-' || c == '.' || c == ':';
        if !ok {
            return Err(AppError::invalid(field, "requires a bounded ASCII identifier"));
        }
        if i >= 2 && v[i - 2] == ':' && v[i - 1] == '/' && v[i] == '/' {
            assert(v@[i - 2] == ':' && v@[i - 2 + 1] == '/' && v@[i - 2 + 2] == '/');
            assert(has_scheme_marker(value@));
            return Err(AppError::invalid(field, "requires a bounded ASCII identifier"));
        }
        i = i + 1;
    }
    Ok(())
}

pub open spec fn kind_ok(k: Seq<char>) -> bool {
    ||| k == "started"@
    ||| k == "resumed"@
    ||| k == "idle"@
    ||| k == "closed"@
    ||| k == "user_message"@
    ||| k == "assistant_message"@
    ||| k == "tool_call"@
    ||| k == "tool_result"@
    ||| k == "error"@
}

fn kind_ok_exec(k: &str) -> (r: bool)
    ensures
        r == kind_ok(k@),
{
    str_equal(k, "started") || str_equal(k, "resumed") || str_equal(k, "idle") || str_equal(
        k,
        "closed",
    ) || str_equal(k, "user_message") || str_equal(k, "assistant_message") || str_equal(
        k,
        "tool_call",
    ) || str_equal(k, "tool_result") || str_equal(k, "error")
}

/// The raw event text must fit in 16 KiB.
pub fn check_hook_input(input: &str) -> (r: AppResult<()>)
    ensures
        input.len() <= INPUT_LIMIT ==> r is Ok,
        input.len() > INPUT_LIMIT ==> (r matches Err(e) && e.is_invalid("input"@, "event exceeds 16 KiB"@)),
{
    if input.len() > INPUT_LIMIT {
        return Err(AppError::invalid("input", "event exceeds 16 KiB"));
    }
    Ok(())
}

/// Why an event is refused, in check order.
pub open spec fn event_problem(e: HookEventInput) -> Option<(Seq<char>, Seq<char>)> {
    if e.schema_version != 1 {
        Some(("schemaVersion"@, "expected 1"@))
    } else if !identifier_ok(e.session_id@, 128) {
        Some(("sessionId"@, "requires a bounded ASCII identifier"@))
    } else if !identifier_ok(e.source@, 32) {
        Some(("source"@, "requires a bounded ASCII identifier"@))
    } else if !identifier_ok(e.external_session_id@, 128) {
        Some(("externalSessionId"@, "requires a bounded ASCII identifier"@))
    } else if !identifier_ok(e.event_id@, 128) {
        Some(("eventId"@, "requires a bounded ASCII identifier"@))
    } else if !kind_ok(e.kind@) {
        Some(("kind"@, "unsupported observation kind"@))
    } else if spec_rfc3339_utc(e.occurred_at@) is None {
        Some(("occurredAt"@, "expected RFC3339 with timezone"@))
    } else {
        None
    }
}

/// Validates an event and normalizes its timestamp to UTC with nanoseconds.
pub fn validate_hook_event(event: &HookEventInput) -> (r: AppResult<HookEventInput>)
    ensures
        match event_problem(*event) {
            Some((f, why)) => r matches Err(e) && e.is_invalid(f, why),
            None => r matches Ok(n) && n.schema_version == 1 && n.session_id@ == event.session_id@
                && n.source@ == event.source@ && n.external_session_id@
                == event.external_session_id@ && n.event_id@ == event.event_id@ && n.kind@
                == event.kind@ && Some(n.occurred_at@) == spec_rfc3339_utc(event.occurred_at@),
        },
{
    if event.schema_version != 1 {
        return Err(AppError::invalid("schemaVersion", "expected 1"));
    }
    identifier("sessionId", event.session_id.as_str(), 128)?;
    identifier("source", event.source.as_str(), 32)?;
    identifier("externalSessionId", event.external_session_id.as_str(), 128)?;
    identifier("eventId", event.event_id.as_str(), 128)?;
    if !kind_ok_exec(event.kind.as_str()) {
        return Err(AppError::invalid("kind", "unsupported observation kind"));
    }
    let occurred_at = match rfc3339_utc(event.occurred_at.as_str()) {
        Some(t) => t,
        None => {
            return Err(AppError::invalid("occurredAt", "expected RFC3339 with timezone"));
        },
    };
    Ok(
        HookEventInput {
            schema_version: 1,
            session_id: event.session_id.clone(),
            source: event.source.clone(),
            external_session_id: event.external_session_id.clone(),
            event_id: event.event_id.clone(),
            kind: event.kind.clone(),
            occurred_at,
        },
    )
}

/// How one character is written inside a JSON string: quote, backslash and control
/// characters are escaped (`\b \t \n \f \r`, else `\u00xx`), all others kept.
pub open spec fn json_char(c: char) -> Seq<char> {
    let v = c as u32;
    if c == '"' {
        seq!['\\', '"']
    } else if c == '\\' {
        seq!['\\', '\\']
    } else if v == 8 {
        seq!['\\', 'b']
    } else if v == 9 {
        seq!['\\', 't']
    } else if v == 10 {
        seq!['\\', 'n']
    } else if v == 12 {
        seq!['\\', 'f']
    } else if v == 13 {
        seq!['\\', 'r']
    } else if v < 0x20 {
        seq!['\\', 'u', '0', '0', crate::digest::hex_digit(v as int / 16), crate::digest::hex_digit(v as int % 16)]
    } else {
        seq![c]
    }
}

/// The escaped body of a JSON string.
pub open spec fn json_escape(s: Seq<char>) -> Seq<char>
    decreases s.len(),
{
    if s.len() == 0 {
        Seq::empty()
    } else {
        json_escape(s.drop_last()) + json_char(s.last())
    }
}

/// A JSON string literal.
pub open spec fn json_str(s: Seq<char>) -> Seq<char> {
    seq!['"'] + json_escape(s) + seq!['"']
}

/// The value of a lowercase hexadecimal digit character.
pub open spec fn hex_char_value(c: char) -> int {
    if c <= '9' {
        (c as u32) - 48
    } else {
        (c as u32) - 87
    }
}

/// The character a two-character JSON escape (`\x`) stands for, if any.
pub open spec fn short_escape(c: char) -> Option<char> {
    if c == '"' {
        Some('"')
    } else if c == '\\' {
        Some('\\')
    } else if c == 'b' {
        Some('\u{8}')
    } else if c == 't' {
        Some('\t')
    } else if c == 'n' {
        Some('\n')
    } else if c == 'f' {
        Some('\u{c}')
    } else if c == 'r' {
        Some('\r')
    } else {
        None
    }
}

/// Reads the body of a JSON string literal up to its closing quote: the text it
/// denotes and what follows the quote, `None` when no closing quote is found.
pub open spec fn read_json_body(t: Seq<char>) -> Option<(Seq<char>, Seq<char>)>
    decreases t.len(),
{
    if t.len() == 0 {
        None
    } else if t[0] == '"' {
        Some((Seq::empty(), t.drop_first()))
    } else if t[0] == '\\' && t.len() >= 2 && short_escape(t[1]) is Some {
        match read_json_body(t.subrange(2, t.len() as int)) {
            Some((x, rest)) => Some((seq![short_escape(t[1]).unwrap()] + x, rest)),
            None => None,
        }
    } else if t[0] == '\\' && t.len() >= 6 && t[1] == 'u' {
        let v = hex_char_value(t[4]) * 16 + hex_char_value(t[5]);
        match read_json_body(t.subrange(6, t.len() as int)) {
            Some((x, rest)) => Some((seq![v as char] + x, rest)),
            None => None,
        }
    } else {
        match read_json_body(t.drop_first()) {
            Some((x, rest)) => Some((seq![t[0]] + x, rest)),
            None => None,
        }
    }
}

proof fn lemma_json_escape_append(a: Seq<char>, b: Seq<char>)
    ensures
        json_escape(a + b) == json_escape(a) + json_escape(b),
    decreases b.len(),
{
    if b.len() == 0 {
        assert(a + b =~= a);
        assert(json_escape(b) =~= Seq::<char>::empty());
        assert(json_escape(a) + json_escape(b) =~= json_escape(a));
    } else {
        lemma_json_escape_append(a, b.drop_last());
        assert((a + b).drop_last() =~= a + b.drop_last());
        assert((a + b).last() == b.last());
        assert(json_escape(a + b) =~= json_escape(a) + json_escape(b.drop_last()) + json_char(
            b.last(),
        ));
    }
}

proof fn lemma_json_escape_front(s: Seq<char>)
    requires
        s.len() > 0,
    ensures
        json_escape(s) == json_char(s[0]) + json_escape(s.drop_first()),
{
    let one = seq![s[0]];
    lemma_json_escape_append(one, s.drop_first());
    assert(one + s.drop_first() =~= s);
    assert(one.len() == 1 && one.last() == s[0]);
    assert(one.drop_last() =~= Seq::<char>::empty());
    assert(json_escape(Seq::<char>::empty()) =~= Seq::<char>::empty());
    assert(json_escape(one) == json_escape(one.drop_last()) + json_char(one.last()));
    assert(json_escape(one) =~= json_char(s[0]));
}

proof fn lemma_hex_digit_value(n: int)
    requires
        0 <= n < 16,
    ensures
        hex_char_value(crate::digest::hex_digit(n)) == n,
{
    let c = crate::digest::hex_digit(n);
    if n < 10 {
        assert(c as u32 == 48 + n);
    } else {
        assert(c as u32 == 97 + n - 10);
    }
}

proof fn lemma_read_json_char(c: char, tail: Seq<char>)
    requires
        read_json_body(tail) is Some,
    ensures
        read_json_body(json_char(c) + tail) == Some(
            (seq![c] + read_json_body(tail).unwrap().0, read_json_body(tail).unwrap().1),
        ),
{
    let t = json_char(c) + tail;
    let v = c as u32;
    if c == '"' || c == '\\' || v == 8 || v == 9 || v == 10 || v == 12 || v == 13 {
        assert(t.subrange(2, t.len() as int) =~= tail);
        assert(t[0] == '\\');
        if v == 8 {
            assert(c == '\u{8}');
        } else if v == 9 {
            assert(c == '\t');
        } else if v == 10 {
            assert(c == '\n');
        } else if v == 12 {
            assert(c == '\u{c}');
        } else if v == 13 {
            assert(c == '\r');
        }
    } else if v < 0x20 {
        assert(t.subrange(6, t.len() as int) =~= tail);
        assert(t[0] == '\\' && t[1] == 'u');
        lemma_hex_digit_value(v as int / 16);
        lemma_hex_digit_value(v as int % 16);
        assert(hex_char_value(t[4]) * 16 + hex_char_value(t[5]) == v as int);
        assert(short_escape('u') is None);
        assert(((v as int) as char) == c);
    } else {
        assert(t.drop_first() =~= tail);
        assert(t[0] == c);
    }
}

proof fn lemma_read_json_body(s: Seq<char>, rest: Seq<char>)
    ensures
        read_json_body(json_escape(s) + seq!['"'] + rest) == Some((s, rest)),
    decreases s.len(),
{
    if s.len() == 0 {
        let t = json_escape(s) + seq!['"'] + rest;
        assert(json_escape(s) =~= Seq::<char>::empty());
        assert(t.drop_first() =~= rest);
    } else {
        lemma_read_json_body(s.drop_first(), rest);
        lemma_json_escape_front(s);
        let tail = json_escape(s.drop_first()) + seq!['"'] + rest;
        lemma_read_json_char(s[0], tail);
        assert(json_escape(s) + seq!['"'] + rest =~= json_char(s[0]) + tail);
        assert(seq![s[0]] + s.drop_first() =~= s);
    }
}

/// A JSON string literal followed by anything is read back as its text and what
/// follows it.
proof fn lemma_read_json_str(s: Seq<char>, rest: Seq<char>)
    ensures
        (json_str(s) + rest)[0] == '"',
        read_json_body((json_str(s) + rest).drop_first()) == Some((s, rest)),
{
    lemma_read_json_body(s, rest);
    assert((json_str(s) + rest).drop_first() =~= json_escape(s) + seq!['"'] + rest);
}

/// Removes a common prefix `p` from two equal sequences.
proof fn lemma_strip_prefix(p: Seq<char>, a: Seq<char>, b: Seq<char>)
    requires
        p + a == p + b,
    ensures
        a == b,
{
    assert(a =~= (p + a).subrange(p.len() as int, (p + a).len() as int));
    assert(b =~= (p + b).subrange(p.len() as int, (p + b).len() as int));
}

/// Two literals with their continuations are equal only when their texts and
/// continuations are.
proof fn lemma_json_str_injective(x: Seq<char>, a: Seq<char>, y: Seq<char>, b: Seq<char>)
    requires
        json_str(x) + a == json_str(y) + b,
    ensures
        x == y,
        a == b,
{
    lemma_read_json_str(x, a);
    lemma_read_json_str(y, b);
}

/// One field of an encoding: a common separator, then a literal, then the rest.
proof fn lemma_field_step(
    p: Seq<char>,
    x1: Seq<char>,
    r1: Seq<char>,
    x2: Seq<char>,
    r2: Seq<char>,
)
    requires
        p + (json_str(x1) + r1) == p + (json_str(x2) + r2),
    ensures
        x1 == x2,
        r1 == r2,
{
    lemma_strip_prefix(p, json_str(x1) + r1, json_str(x2) + r2);
    lemma_json_str_injective(x1, r1, x2, r2);
}

/// The encoding read from the right: each separator and literal in front of the rest.
spec fn event_json_nested(
    s: Seq<char>, o: Seq<char>, x: Seq<char>, e: Seq<char>, k: Seq<char>, t: Seq<char>,
) -> Seq<char> {
    "{\"schemaVersion\":1,\"sessionId\":"@ + (json_str(s) + (",\"source\":"@ + (json_str(o) + (
    ",\"externalSessionId\":"@ + (json_str(x) + (",\"eventId\":"@ + (json_str(e) + (
    ",\"kind\":"@ + (json_str(k) + (",\"occurredAt\":"@ + (json_str(t) + "}"@)))))))))))
}

proof fn lemma_event_json_nested(
    s: Seq<char>, o: Seq<char>, x: Seq<char>, e: Seq<char>, k: Seq<char>, t: Seq<char>,
)
    ensures
        event_json_of(s, o, x, e, k, t) == event_json_nested(s, o, x, e, k, t),
{
    let a1 = "{\"schemaVersion\":1,\"sessionId\":"@ + json_str(s);
    let a2 = a1 + ",\"source\":"@;
    let a3 = a2 + json_str(o);
    let a4 = a3 + ",\"externalSessionId\":"@;
    let a5 = a4 + json_str(x);
    let a6 = a5 + ",\"eventId\":"@;
    let a7 = a6 + json_str(e);
    let a8 = a7 + ",\"kind\":"@;
    let a9 = a8 + json_str(k);
    let a10 = a9 + ",\"occurredAt\":"@;
    let a11 = a10 + json_str(t);
    let z12 = "}"@;
    let z11 = json_str(t) + z12;
    let z10 = ",\"occurredAt\":"@ + z11;
    let z9 = json_str(k) + z10;
    let z8 = ",\"kind\":"@ + z9;
    let z7 = json_str(e) + z8;
    let z6 = ",\"eventId\":"@ + z7;
    let z5 = json_str(x) + z6;
    let z4 = ",\"externalSessionId\":"@ + z5;
    let z3 = json_str(o) + z4;
    let z2 = ",\"source\":"@ + z3;
    let z1 = json_str(s) + z2;
    lemma_concat_associative(a10, json_str(t), z12);
    lemma_concat_associative(a9, ",\"occurredAt\":"@, z11);
    lemma_concat_associative(a8, json_str(k), z10);
    lemma_concat_associative(a7, ",\"kind\":"@, z9);
    lemma_concat_associative(a6, json_str(e), z8);
    lemma_concat_associative(a5, ",\"eventId\":"@, z7);
    lemma_concat_associative(a4, json_str(x), z6);
    lemma_concat_associative(a3, ",\"externalSessionId\":"@, z5);
    lemma_concat_associative(a2, json_str(o), z4);
    lemma_concat_associative(a1, ",\"source\":"@, z3);
    lemma_concat_associative("{\"schemaVersion\":1,\"sessionId\":"@, json_str(s), z2);
}

/// The compact JSON of an event determines the event: different events never share
/// their encoding, so equal fingerprints can only come from equal events or from a
/// SHA-256 collision.
pub proof fn law_event_json_injective(
    s1: Seq<char>, o1: Seq<char>, x1: Seq<char>, e1: Seq<char>, k1: Seq<char>, t1: Seq<char>,
    s2: Seq<char>, o2: Seq<char>, x2: Seq<char>, e2: Seq<char>, k2: Seq<char>, t2: Seq<char>,
)
    requires
        event_json_of(s1, o1, x1, e1, k1, t1) == event_json_of(s2, o2, x2, e2, k2, t2),
    ensures
        s1 == s2 && o1 == o2 && x1 == x2 && e1 == e2 && k1 == k2 && t1 == t2,
{
    lemma_event_json_nested(s1, o1, x1, e1, k1, t1);
    lemma_event_json_nested(s2, o2, x2, e2, k2, t2);
    let p5 = ",\"occurredAt\":"@;
    let end = "}"@;
    let r5_1 = p5 + (json_str(t1) + end);
    let r5_2 = p5 + (json_str(t2) + end);
    let r4_1 = ",\"kind\":"@ + (json_str(k1) + r5_1);
    let r4_2 = ",\"kind\":"@ + (json_str(k2) + r5_2);
    let r3_1 = ",\"eventId\":"@ + (json_str(e1) + r4_1);
    let r3_2 = ",\"eventId\":"@ + (json_str(e2) + r4_2);
    let r2_1 = ",\"externalSessionId\":"@ + (json_str(x1) + r3_1);
    let r2_2 = ",\"externalSessionId\":"@ + (json_str(x2) + r3_2);
    let r1_1 = ",\"source\":"@ + (json_str(o1) + r2_1);
    let r1_2 = ",\"source\":"@ + (json_str(o2) + r2_2);
    lemma_field_step("{\"schemaVersion\":1,\"sessionId\":"@, s1, r1_1, s2, r1_2);
    lemma_field_step(",\"source\":"@, o1, r2_1, o2, r2_2);
    lemma_field_step(",\"externalSessionId\":"@, x1, r3_1, x2, r3_2);
    lemma_field_step(",\"eventId\":"@, e1, r4_1, e2, r4_2);
    lemma_field_step(",\"kind\":"@, k1, r5_1, k2, r5_2);
    lemma_field_step(p5, t1, end, t2, end);
}

pub(crate) fn push_str(out: &mut Vec<char>, s: &str)
    ensures
        final(out)@ == old(out)@ + s@,
{
    let v = chars_of(s);
    let mut i: usize = 0;
    let ghost start = out@;
    while i < v.len()
        invariant
            i <= v@.len(),
            out@ == start + v@.take(i as int),
        decreases v@.len() - i,
    {
        out.push(v[i]);
        proof {
            assert(v@.take(i + 1) =~= v@.take(i as int).push(v@[i as int]));
        }
        i = i + 1;
    }
    assert(v@.take(v@.len() as int) =~= v@);
}

fn hex_digit_exec(n: u32) -> (c: char)
    requires
        n < 16,
    ensures
        c == crate::digest::hex_digit(n as int),
{
    match n {
        0 => '0',
        1 => '1',
        2 => '2',
        3 => '3',
        4 => '4',
        5 => '5',
        6 => '6',
        7 => '7',
        8 => '8',
        9 => '9',
        10 => 'a',
        11 => 'b',
        12 => 'c',
        13 => 'd',
        14 => 'e',
        _ => 'f',
    }
}

pub(crate) fn push_json_str(out: &mut Vec<char>, s: &str)
    ensures
        final(out)@ == old(out)@ + json_str(s@),
{
    let v = chars_of(s);
    let ghost start = out@;
    out.push('"');
    let mut i: usize = 0;
    assert(v@.take(0) =~= Seq::<char>::empty());
    while i < v.len()
        invariant
            i <= v@.len(),
            out@ == start + seq!['"'] + json_escape(v@.take(i as int)),
        decreases v@.len() - i,
    {
        let c = v[i];
        let x = c as u32;
        let ghost before = out@;
        if c == '"' {
            out.push('\\');
            out.push('"');
        } else if c == '\\' {
            out.push('\\');
            out.push('\\');
        } else if x == 8 {
            out.push('\\');
            out.push('b');
        } else if x == 9 {
            out.push('\\');
            out.push('t');
        } else if x == 10 {
            out.push('\\');
            out.push('n');
        } else if x == 12 {
            out.push('\\');
            out.push('f');
        } else if x == 13 {
            out.push('\\');
            out.push('r');
        } else if x < 0x20 {
            out.push('\\');
            out.push('u');
            out.push('0');
            out.push('0');
            out.push(hex_digit_exec(x / 16));
            out.push(hex_digit_exec(x % 16));
        } else {
            out.push(c);
        }
        proof {
            assert(out@ =~= before + json_char(c));
            assert(v@.take(i + 1).drop_last() =~= v@.take(i as int));
        }
        i = i + 1;
    }
    out.push('"');
    proof {
        assert(v@.take(v@.len() as int) =~= v@);
        assert(out@ =~= start + json_str(s@));
    }
}

/// The compact JSON of an event, fields in declaration order with camelCase names.
pub open spec fn event_json(e: HookEventInput) -> Seq<char> {
    event_json_of(
        e.session_id@,
        e.source@,
        e.external_session_id@,
        e.event_id@,
        e.kind@,
        e.occurred_at@,
    )
}

/// The compact JSON of a schema-1 event with the given fields.
pub open spec fn event_json_of(
    session_id: Seq<char>,
    source: Seq<char>,
    external_session_id: Seq<char>,
    event_id: Seq<char>,
    kind: Seq<char>,
    occurred_at: Seq<char>,
) -> Seq<char> {
    "{\"schemaVersion\":1,\"sessionId\":"@ + json_str(session_id) + ",\"source\":"@ + json_str(
        source,
    ) + ",\"externalSessionId\":"@ + json_str(external_session_id) + ",\"eventId\":"@
        + json_str(event_id) + ",\"kind\":"@ + json_str(kind) + ",\"occurredAt\":"@ + json_str(
        occurred_at,
    ) + "}"@
}

/// The content fingerprint of a validated event: lowercase hex SHA-256 of its
/// compact JSON encoding.
pub open spec fn spec_fingerprint(e: HookEventInput) -> Seq<char> {
    hex_lower(spec_sha256(encode_utf8(event_json(e))))
}

pub fn event_fingerprint(event: &HookEventInput) -> (r: String)
    requires
        event.schema_version == 1,
    ensures
        r@ == spec_fingerprint(*event),
{
    let mut out: Vec<char> = Vec::new();
    push_str(&mut out, "{\"schemaVersion\":1,\"sessionId\":");
    push_json_str(&mut out, event.session_id.as_str());
    push_str(&mut out, ",\"source\":");
    push_json_str(&mut out, event.source.as_str());
    push_str(&mut out, ",\"externalSessionId\":");
    push_json_str(&mut out, event.external_session_id.as_str());
    push_str(&mut out, ",\"eventId\":");
    push_json_str(&mut out, event.event_id.as_str());
    push_str(&mut out, ",\"kind\":");
    push_json_str(&mut out, event.kind.as_str());
    push_str(&mut out, ",\"occurredAt\":");
    push_json_str(&mut out, event.occurred_at.as_str());
    push_str(&mut out, "}");
    assert(out@ =~= event_json(*event));
    let text = string_from_chars(out.as_slice());
    sha256_hex(text.as_str().as_bytes())
}

/// An event already stored under the same session and event id.
#[derive(Debug, Clone)]
pub struct StoredEvent {
    pub sequence: i64,
    pub fingerprint: String,
    pub deleted: bool,
}

/// What ingesting an event does.
#[derive(Debug, Clone, Copy, PartialEq, Eq, Structural)]
pub enum IngestPlan {
    /// Same event id, same content: report the stored sequence, write nothing.
    Duplicate { sequence: i64, deleted: bool },
    /// Store a new observation.
    Insert,
}

impl AppError {
    pub open spec fn is_hook_conflict(self, sequence: i64) -> bool {
        &&& self.body.code == ErrorCode::HookEventConflict
        &&& self.body.message@ == "event ID already has different content"@
        &&& !self.body.retryable
        &&& self.exit_code == 4
        &&& self.body.details == (ErrorDetails::Sequence { sequence })
    }

    pub open spec fn is_hook_capacity(self) -> bool {
        &&& self.body.code == ErrorCode::HookCapacityReached
        &&& self.body.message@ == "session observation capacity reached"@
        &&& !self.body.retryable
        &&& self.exit_code == 4
        &&& self.body.details == (ErrorDetails::Limit { limit: EVENT_LIMIT })
    }
}

/// What an ingest decides, from whether the session is bound to the event, the
/// event's fingerprint, the stored observation with the same event id (its sequence,
/// fingerprint and tombstone flag) and the session's observation count.
pub enum IngestDecision {
    Plan(IngestPlan),
    Mismatch,
    Conflict(i64),
    Capacity,
}

pub open spec fn ingest_decision(
    bound: bool,
    fingerprint: Seq<char>,
    existing: Option<(i64, Seq<char>, bool)>,
    count: i64,
) -> IngestDecision {
    if !bound {
        IngestDecision::Mismatch
    } else {
        match existing {
            Some((sequence, stored, deleted)) => if stored == fingerprint {
                IngestDecision::Plan(IngestPlan::Duplicate { sequence, deleted })
            } else {
                IngestDecision::Conflict(sequence)
            },
            None => if count >= EVENT_LIMIT {
                IngestDecision::Capacity
            } else {
                IngestDecision::Plan(IngestPlan::Insert)
            },
        }
    }
}

/// `r` is the result an ingest decision calls for.
pub open spec fn ingest_result(r: AppResult<IngestPlan>, d: IngestDecision) -> bool {
    match d {
        IngestDecision::Plan(p) => r == Ok::<IngestPlan, AppError>(p),
        IngestDecision::Mismatch => r matches Err(e) && e.is_constraint("hook.session_binding_mismatch"@),
        IngestDecision::Conflict(sequence) => r matches Err(e) && e.is_hook_conflict(sequence),
        IngestDecision::Capacity => r matches Err(e) && e.is_hook_capacity(),
    }
}

/// The session is bound to the event's source and external session id.
pub open spec fn session_bound(session: SessionState, event: HookEventInput) -> bool {
    opt_view(session.source) == Some(event.source@) && opt_view(session.external_session_id)
        == Some(event.external_session_id@)
}

pub open spec fn stored_view(existing: Option<&StoredEvent>) -> Option<(i64, Seq<char>, bool)> {
    match existing {
        Some(s) => Some((s.sequence, s.fingerprint@, s.deleted)),
        None => None,
    }
}

/// Redelivery is idempotent: once an event was accepted and stored with its
/// fingerprint under some sequence, delivering an event with the same compact JSON
/// again (whatever the count by then, even at capacity) is a duplicate of that
/// sequence, and delivering different content under the same event id is a conflict
/// naming that sequence. An ingest decision never carries a task change: its plans
/// are only "insert" and "duplicate".
pub proof fn law_redelivery_is_duplicate(
    first: HookEventInput,
    again: HookEventInput,
    sequence: i64,
    deleted: bool,
    count: i64,
    other_fingerprint: Seq<char>,
)
    requires
        event_json(again) == event_json(first),
        other_fingerprint != spec_fingerprint(first),
    ensures
        ingest_decision(true, spec_fingerprint(again), Some((sequence, spec_fingerprint(first), deleted)), count)
            == IngestDecision::Plan(IngestPlan::Duplicate { sequence, deleted }),
        ingest_decision(true, other_fingerprint, Some((sequence, spec_fingerprint(first), deleted)), count)
            == IngestDecision::Conflict(sequence),
{
}

/// Decides an ingest: the session must be bound to the event's source and external
/// id; a repeated event id is a duplicate when its fingerprint matches and a conflict
/// otherwise; a session holds at most 10000 observations.
pub fn plan_ingest(session: &SessionState, event: &HookEventInput, fingerprint: &str, existing: Option<&StoredEvent>, count: i64) -> (r: AppResult<IngestPlan>)
    ensures
        ingest_result(r, ingest_decision(session_bound(*session, *event), fingerprint@, stored_view(existing), count)),
        !(opt_view(session.source) == Some(event.source@) && opt_view(session.external_session_id)
            == Some(event.external_session_id@)) ==> (r matches Err(e) && e.is_constraint(
            "hook.session_binding_mismatch"@,
        )),
        opt_view(session.source) == Some(event.source@) && opt_view(session.external_session_id)
            == Some(event.external_session_id@) ==> match existing {
            Some(s) => if s.fingerprint@ == fingerprint@ {
                r == Ok::<IngestPlan, AppError>(
                    IngestPlan::Duplicate { sequence: s.sequence, deleted: s.deleted },
                )
            } else {
                r matches Err(e) && e.is_hook_conflict(s.sequence)
            },
            None => if count >= EVENT_LIMIT {
                r matches Err(e) && e.is_hook_capacity()
            } else {
                r == Ok::<IngestPlan, AppError>(IngestPlan::Insert)
            },
        },
{
    let bound = match (&session.source, &session.external_session_id) {
        (Some(s), Some(x)) => str_equal(s.as_str(), event.source.as_str()) && str_equal(
            x.as_str(),
            event.external_session_id.as_str(),
        ),
        _ => false,
    };
    if !bound {
        return Err(AppError::constraint("hook.session_binding_mismatch"));
    }
    match existing {
        Some(s) => {
            if !str_equal(s.fingerprint.as_str(), fingerprint) {
                return Err(
                    AppError::new(
                        ErrorCode::HookEventConflict,
                        "event ID already has different content",
                        false,
                        ErrorDetails::Sequence { sequence: s.sequence },
                        4,
                    ),
                );
            }
            Ok(IngestPlan::Duplicate { sequence: s.sequence, deleted: s.deleted })
        },
        None => {
            if count >= EVENT_LIMIT {
                return Err(
                    AppError::new(
                        ErrorCode::HookCapacityReached,
                        "session observation capacity reached",
                        false,
                        ErrorDetails::Limit { limit: EVENT_LIMIT },
                        4,
                    ),
                );
            }
            Ok(IngestPlan::Insert)
        },
    }
}

/// Checks an observation page request.
pub fn check_hook_page(after: i64, limit: u32) -> (r: AppResult<()>)
    ensures
        after >= 0 && 1 <= limit <= 200 ==> r is Ok,
        !(after >= 0 && 1 <= limit <= 200) ==> (r matches Err(e) && e.is_invalid(
            "pagination"@,
            "after >= 0 and limit 1..200 required"@,
        )),
{
    if after < 0 || limit < 1 || limit > 200 {
        return Err(AppError::invalid("pagination", "after >= 0 and limit 1..200 required"));
    }
    Ok(())
}

} // verus!
