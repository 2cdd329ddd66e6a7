//! Decisions of the explicit, offline imports of older databases.
//!
//! An import copies a quiescent snapshot into an absent destination and verifies the
//! copy; it never upgrades in place and never changes task versions or history. The
//! functions here decide what a snapshot must look like and what its records may
//! hold; reading the snapshot and writing the copy are left to the caller.
use vstd::prelude::*;
use vstd::string::StringSliceAdditionalSpecFns;

use crate::digest::{hex_lower, rfc3339_utc, sha256_hex, spec_rfc3339_utc, spec_sha256};
use crate::error::{AppError, AppResult};
use crate::host_evidence::{decimal, push_decimal};
use crate::hooks::{
    event_fingerprint, event_json_of, id_char, identifier_ok, push_str, HookEventInput,
};
use crate::path_safety::{join, push_join, ExistingPathIdentityRecord};
use crate::reference::{all_digits, chars_all_digits};
use crate::sessions::MAX_IMPORT_BYTES;
use crate::text::{chars_of, owned, str_equal, string_from_chars, trim, trim_str};
use vstd::utf8::encode_utf8;

verus! {

/// `e` refuses a source snapshot for `reason`.
pub open spec fn is_refused(e: AppError, reason: Seq<char>) -> bool {
    e.is_invalid("source"@, reason)
}

/// An import must be confirmed explicitly.
pub fn check_confirmed(confirmed: bool) -> (r: AppResult<()>)
    ensures
        confirmed ==> r is Ok,
        !confirmed ==> (r matches Err(e) && e.is_invalid(
            "yes"@,
            "explicit --yes confirmation is required"@,
        )),
{
    if confirmed {
        Ok(())
    } else {
        Err(AppError::invalid("yes", "explicit --yes confirmation is required"))
    }
}

/// The tables of a legacy v7 archive, in name order.
pub open spec fn legacy_tables() -> Seq<Seq<char>> {
    seq![
        "checkpoints"@,
        "history"@,
        "schema_migrations"@,
        "session_imports"@,
        "sessions"@,
        "task_notes"@,
        "tasks"@,
    ]
}

pub open spec fn strings_view(v: Seq<String>) -> Seq<Seq<char>> {
    v.map_values(|s: String| s@)
}

fn strings_equal(v: &Vec<String>, expected: &Vec<&str>) -> (r: bool)
    ensures
        r == (strings_view(v@) == expected@.map_values(|s: &str| s@)),
{
    let ghost want = expected@.map_values(|s: &str| s@);
    if v.len() != expected.len() {
        assert(strings_view(v@).len() != want.len());
        return false;
    }
    let mut i: usize = 0;
    while i < v.len()
        invariant
            v@.len() == expected@.len(),
            want == expected@.map_values(|s: &str| s@),
            i <= v@.len(),
            forall|k: int| 0 <= k < i ==> #[trigger] v@[k]@ == expected@[k]@,
        decreases v@.len() - i,
    {
        if !str_equal(v[i].as_str(), expected[i]) {
            assert(strings_view(v@)[i as int] != want[i as int]);
            return false;
        }
        i = i + 1;
    }
    assert(strings_view(v@) =~= want);
    true
}

pub open spec fn legacy_layout_reason() -> Seq<char> {
    "only the legacy schema_migrations v7 archive is supported"@
}

/// A legacy archive has user version 0 and exactly the legacy tables.
pub fn check_legacy_layout(user_version: i64, tables: &Vec<String>) -> (r: AppResult<()>)
    ensures
        user_version == 0 && strings_view(tables@) == legacy_tables() ==> r is Ok,
        !(user_version == 0 && strings_view(tables@) == legacy_tables()) ==> (r matches Err(e)
            && is_refused(e, legacy_layout_reason())),
{
    let expected = vec![
        "checkpoints",
        "history",
        "schema_migrations",
        "session_imports",
        "sessions",
        "task_notes",
        "tasks",
    ];
    let same = strings_equal(tables, &expected);
    assert(expected@.map_values(|s: &str| s@) =~= legacy_tables());
    if user_version != 0 || !same {
        return Err(AppError::invalid("source", "only the legacy schema_migrations v7 archive is supported"));
    }
    Ok(())
}

/// The legacy migration chain: versions 1 through 7, each once, in order.
pub open spec fn legacy_versions() -> Seq<i64> {
    seq![1i64, 2, 3, 4, 5, 6, 7]
}

/// A legacy archive records the complete v1 through v7 migration chain.
pub fn check_legacy_versions(versions: &Vec<i64>) -> (r: AppResult<()>)
    ensures
        versions@ == legacy_versions() ==> r is Ok,
        versions@ != legacy_versions() ==> (r matches Err(e) && is_refused(
            e,
            "expected the complete legacy v1 through v7 migration chain"@,
        )),
{
    let mut ok = versions.len() == 7;
    let mut i: usize = 0;
    while ok && i < versions.len()
        invariant
            ok ==> versions@.len() == 7,
            ok ==> forall|k: int| 0 <= k < i ==> versions@[k] == k + 1,
            !ok ==> versions@ != legacy_versions(),
            i <= versions@.len(),
        decreases versions@.len() - i,
    {
        if versions[i] != (i as i64) + 1 {
            assert(versions@[i as int] != legacy_versions()[i as int]);
            ok = false;
        }
        i = i + 1;
    }
    if ok {
        assert(versions@ =~= legacy_versions());
        Ok(())
    } else {
        Err(AppError::invalid("source", "expected the complete legacy v1 through v7 migration chain"))
    }
}

/// A snapshot passes the integrity checks when SQLite reports exactly `ok` and no
/// foreign key violation.
pub fn check_integrity(checks: &Vec<String>, foreign_key_violation: bool) -> (r: AppResult<()>)
    ensures
        strings_view(checks@) != seq!["ok"@] ==> (r matches Err(e) && is_refused(
            e,
            "database integrity check failed"@,
        )),
        strings_view(checks@) == seq!["ok"@] && foreign_key_violation ==> (r matches Err(e)
            && is_refused(e, "database contains foreign key violations"@)),
        strings_view(checks@) == seq!["ok"@] && !foreign_key_violation ==> r is Ok,
{
    let expected = vec!["ok"];
    let same = strings_equal(checks, &expected);
    assert(expected@.map_values(|s: &str| s@) =~= seq!["ok"@]);
    if !same {
        return Err(AppError::invalid("source", "database integrity check failed"));
    }
    if foreign_key_violation {
        return Err(AppError::invalid("source", "database contains foreign key violations"));
    }
    Ok(())
}

pub open spec fn starts_with(s: Seq<char>, p: Seq<char>) -> bool {
    s.len() >= p.len() && s.subrange(0, p.len() as int) == p
}

/// A legacy task key whose meaning would change under the current reference
/// resolver: padded, empty, `#`-prefixed, `key:`-prefixed or all digits.
pub open spec fn legacy_key_ambiguous(k: Seq<char>) -> bool {
    ||| trim(k) != k
    ||| k.len() == 0
    ||| starts_with(k, "#"@)
    ||| starts_with(k, "key:"@)
    ||| all_digits(k)
}

fn chars_start_with(v: &Vec<char>, p: &str) -> (r: bool)
    ensures
        r == starts_with(v@, p@),
{
    let q = chars_of(p);
    if v.len() < q.len() {
        return false;
    }
    let mut i: usize = 0;
    while i < q.len()
        invariant
            q@ == p@,
            q@.len() <= v@.len(),
            i <= q@.len(),
            forall|k: int| 0 <= k < i ==> v@[k] == q@[k],
        decreases q@.len() - i,
    {
        if v[i] != q[i] {
            assert(v@.subrange(0, q@.len() as int)[i as int] != q@[i as int]);
            return false;
        }
        i = i + 1;
    }
    assert(v@.subrange(0, q@.len() as int) =~= q@);
    true
}

pub open spec fn legacy_key_reason() -> Seq<char> {
    "legacy taskKey has ambiguous reference syntax; explicit mapping is required"@
}

/// Refuses a legacy task key with ambiguous reference syntax.
pub fn check_legacy_key(key: &str) -> (r: AppResult<()>)
    ensures
        !legacy_key_ambiguous(key@) ==> r is Ok,
        legacy_key_ambiguous(key@) ==> (r matches Err(e) && is_refused(e, legacy_key_reason())),
{
    let v = chars_of(key);
    let t = trim_str(key);
    let padded = !str_equal(t.as_str(), key);
    if padded || v.len() == 0 || chars_start_with(&v, "#") || chars_start_with(&v, "key:")
        || chars_all_digits(v.as_slice()) {
        return Err(
            AppError::invalid(
                "source",
                "legacy taskKey has ambiguous reference syntax; explicit mapping is required",
            ),
        );
    }
    Ok(())
}

/// `s` without any occurrence of `x`, order kept.
pub open spec fn without(s: Seq<Seq<char>>, x: Seq<char>) -> Seq<Seq<char>>
    decreases s.len(),
{
    if s.len() == 0 {
        Seq::empty()
    } else if s.last() == x {
        without(s.drop_last(), x)
    } else {
        without(s.drop_last(), x).push(s.last())
    }
}

fn strings_without(v: &Vec<String>, x: &str) -> (r: Vec<String>)
    ensures
        strings_view(r@) == without(strings_view(v@), x@),
{
    let mut out: Vec<String> = Vec::new();
    let mut i: usize = 0;
    assert(strings_view(v@).take(0) =~= Seq::<Seq<char>>::empty());
    while i < v.len()
        invariant
            i <= v@.len(),
            strings_view(out@) == without(strings_view(v@).take(i as int), x@),
        decreases v@.len() - i,
    {
        let ghost before = out@;
        proof {
            assert(strings_view(v@).take(i + 1).drop_last() =~= strings_view(v@).take(i as int));
            assert(strings_view(v@).take(i + 1).last() == v@[i as int]@);
        }
        if !str_equal(v[i].as_str(), x) {
            out.push(owned(v[i].as_str()));
            proof {
                assert(strings_view(out@) =~= strings_view(before).push(v@[i as int]@));
            }
        }
        i = i + 1;
    }
    assert(strings_view(v@).take(v@.len() as int) =~= strings_view(v@));
    out
}

/// The columns copied for a legacy table. The current `tasks` table gains
/// `project_id`, which legacy archives never had and which stays empty; the legacy
/// `worktree_path_key` is not copied. All other columns must match in order.
pub open spec fn spec_legacy_columns(table: Seq<char>, fields: Seq<Seq<char>>, old_fields: Seq<Seq<char>>) -> Option<Seq<Seq<char>>> {
    let (f, o) = if table == "tasks"@ {
        (without(fields, "project_id"@), without(old_fields, "worktree_path_key"@))
    } else {
        (fields, old_fields)
    };
    if f == o {
        Some(f)
    } else {
        None
    }
}

pub open spec fn legacy_columns_reason() -> Seq<char> {
    "legacy table columns do not match the supported v7 layout"@
}

/// Decides which columns of a legacy table are copied, given the current table's
/// columns (`fields`) and the archive's (`old_fields`).
pub fn legacy_copy_columns(table: &str, fields: &Vec<String>, old_fields: &Vec<String>) -> (r: AppResult<Vec<String>>)
    ensures
        match spec_legacy_columns(table@, strings_view(fields@), strings_view(old_fields@)) {
            Some(c) => r matches Ok(v) && strings_view(v@) == c,
            None => r matches Err(e) && is_refused(e, legacy_columns_reason()),
        },
{
    let tasks = str_equal(table, "tasks");
    let f = if tasks {
        strings_without(fields, "project_id")
    } else {
        copy_strings(fields)
    };
    let o = if tasks {
        strings_without(old_fields, "worktree_path_key")
    } else {
        copy_strings(old_fields)
    };
    if !same_strings(&f, &o) {
        return Err(AppError::invalid("source", "legacy table columns do not match the supported v7 layout"));
    }
    Ok(f)
}

fn copy_strings(v: &Vec<String>) -> (r: Vec<String>)
    ensures
        strings_view(r@) == strings_view(v@),
{
    let mut out: Vec<String> = Vec::new();
    let mut i: usize = 0;
    while i < v.len()
        invariant
            i <= v@.len(),
            out@.len() == i,
            forall|k: int| 0 <= k < i ==> #[trigger] out@[k]@ == v@[k]@,
        decreases v@.len() - i,
    {
        out.push(owned(v[i].as_str()));
        i = i + 1;
    }
    assert(strings_view(out@) =~= strings_view(v@));
    out
}

fn same_strings(a: &Vec<String>, b: &Vec<String>) -> (r: bool)
    ensures
        r == (strings_view(a@) == strings_view(b@)),
{
    if a.len() != b.len() {
        assert(strings_view(a@).len() != strings_view(b@).len());
        return false;
    }
    let mut i: usize = 0;
    while i < a.len()
        invariant
            a@.len() == b@.len(),
            i <= a@.len(),
            forall|k: int| 0 <= k < i ==> #[trigger] a@[k]@ == b@[k]@,
        decreases a@.len() - i,
    {
        if !str_equal(a[i].as_str(), b[i].as_str()) {
            assert(strings_view(a@)[i as int] != strings_view(b@)[i as int]);
            return false;
        }
        i = i + 1;
    }
    assert(strings_view(a@) =~= strings_view(b@));
    true
}

/// An autoincrement high-water mark must not lie below the largest copied id.
pub fn check_legacy_sequence(sequence: i64, maximum: i64) -> (r: AppResult<()>)
    ensures
        sequence >= maximum ==> r is Ok,
        sequence < maximum ==> (r matches Err(e) && is_refused(
            e,
            "invalid legacy autoincrement high-water mark"@,
        )),
{
    if sequence < maximum {
        Err(AppError::invalid("source", "invalid legacy autoincrement high-water mark"))
    } else {
        Ok(())
    }
}

/// A migrated task must have a positive id and, below Schema 4, no project membership.
pub fn check_migrated_task(id: i64, allow_projects: bool, has_project: bool, has_components: bool) -> (r: AppResult<()>)
    ensures
        id > 0 && (allow_projects || (!has_project && !has_components)) ==> r is Ok,
        !(id > 0 && (allow_projects || (!has_project && !has_components))) ==> (r matches Err(e)
            && is_refused(e, "invalid task identity or project membership"@)),
{
    if id <= 0 || (!allow_projects && (has_project || has_components)) {
        return Err(AppError::invalid("source", "invalid task identity or project membership"));
    }
    Ok(())
}

/// A stored task key that no longer resolves to its own task: padded, `#`-prefixed,
/// all digits, or resolving to another id.
pub open spec fn migrated_key_ambiguous(k: Seq<char>, resolved: i64, id: i64) -> bool {
    ||| trim(k) != k
    ||| starts_with(k, "#"@)
    ||| all_digits(k)
    ||| resolved != id
}

/// Refuses a stored task key that would not resolve to its own task; `resolved` is
/// the id the current resolver finds for the key.
pub fn check_migrated_key(key: &str, resolved: i64, id: i64) -> (r: AppResult<()>)
    ensures
        !migrated_key_ambiguous(key@, resolved, id) ==> r is Ok,
        migrated_key_ambiguous(key@, resolved, id) ==> (r matches Err(e) && is_refused(
            e,
            "ambiguous task key"@,
        )),
{
    let v = chars_of(key);
    let t = trim_str(key);
    if !str_equal(t.as_str(), key) || chars_start_with(&v, "#") || chars_all_digits(v.as_slice())
        || resolved != id {
        return Err(AppError::invalid("source", "ambiguous task key"));
    }
    Ok(())
}

/// A task's current session must still be open.
pub fn check_migrated_session(ended: bool) -> (r: AppResult<()>)
    ensures
        !ended ==> r is Ok,
        ended ==> (r matches Err(e) && is_refused(e, "current session has ended"@)),
{
    if ended {
        Err(AppError::invalid("source", "current session has ended"))
    } else {
        Ok(())
    }
}

/// A stored import's content must hash to its recorded digest.
pub fn check_import_digest(content: &[u8], sha256: &str) -> (r: AppResult<()>)
    ensures
        sha256@ == hex_lower(spec_sha256(content@)) ==> r is Ok,
        sha256@ != hex_lower(spec_sha256(content@)) ==> (r matches Err(e) && is_refused(
            e,
            "invalid import digest"@,
        )),
{
    let digest = sha256_hex(content);
    if str_equal(digest.as_str(), sha256) {
        Ok(())
    } else {
        Err(AppError::invalid("source", "invalid import digest"))
    }
}

/// A stored hook identifier: 1..=`limit` characters from `[A-Za-z0-9_.:-]`.
pub open spec fn stored_identifier_ok(s: Seq<char>, limit: int) -> bool {
    &&& s.len() > 0
    &&& s.len() <= limit
    &&& forall|i: int| 0 <= i < s.len() ==> id_char(#[trigger] s[i])
}

fn stored_identifier(value: &str, limit: usize) -> (r: bool)
    ensures
        r == stored_identifier_ok(value@, limit as int),
{
    let v = chars_of(value);
    if v.len() == 0 || v.len() > limit {
        return false;
    }
    let mut i: usize = 0;
    while i < v.len()
        invariant
            v@ == value@,
            i <= v@.len(),
            forall|k: int| 0 <= k < i ==> id_char(#[trigger] v@[k]),
        decreases v@.len() - i,
    {
        let c = v[i];
        let ok = ('a' <= c && c <= 'z') || ('A' <= c && c <= 'Z') || ('0' <= c && c <= '9') || c
            == '_' || c == '-' || c == '.' || c == ':';
        if !ok {
            assert(!id_char(v@[i as int]));
            return false;
        }
        i = i + 1;
    }
    true
}

/// Lowercase hexadecimal of 64 characters.
pub open spec fn fingerprint_format_ok(s: Seq<char>) -> bool {
    &&& s.len() == 64
    &&& forall|i: int| 0 <= i < s.len() ==> (('0' <= #[trigger] s[i] && s[i] <= '9') || ('a' <= s[i]
        && s[i] <= 'f'))
}

fn fingerprint_format(value: &str) -> (r: bool)
    ensures
        r == fingerprint_format_ok(value@),
{
    let v = chars_of(value);
    if v.len() != 64 {
        return false;
    }
    let mut i: usize = 0;
    while i < v.len()
        invariant
            v@ == value@,
            v@.len() == 64,
            i <= v@.len(),
            forall|k: int| 0 <= k < i ==> (('0' <= #[trigger] v@[k] && v@[k] <= '9') || ('a' <= v@[k]
                && v@[k] <= 'f')),
        decreases v@.len() - i,
    {
        let c = v[i];
        if !(('0' <= c && c <= '9') || ('a' <= c && c <= 'f')) {
            return false;
        }
        i = i + 1;
    }
    true
}

/// A stored hook observation, joined with its session's source and external id.
#[derive(Debug, Clone)]
pub struct StoredObservation {
    pub session_id: String,
    pub source: String,
    pub external_session_id: String,
    pub event_id: String,
    pub kind: Option<String>,
    pub occurred_at: String,
    pub fingerprint: String,
    pub received_at: String,
}

/// Why a stored hook observation is refused, `None` when it is consistent: bounded
/// identifiers, a well-formed fingerprint and, for an observation with a kind, valid
/// times and a fingerprint equal to the one its fields give.
pub open spec fn observation_problem(o: StoredObservation) -> Option<Seq<char>> {
    if !stored_identifier_ok(o.session_id@, 128) || !stored_identifier_ok(o.source@, 32)
        || !stored_identifier_ok(o.external_session_id@, 128) || !stored_identifier_ok(
        o.event_id@,
        128,
    ) {
        Some("invalid Hook identifier"@)
    } else if !fingerprint_format_ok(o.fingerprint@) {
        Some("invalid Hook fingerprint"@)
    } else {
        match o.kind {
            None => None,
            Some(kind) => if spec_rfc3339_utc(o.received_at@) is None {
                Some("invalid Hook time"@)
            } else {
                match spec_rfc3339_utc(o.occurred_at@) {
                    None => Some("invalid Hook time"@),
                    Some(occurred) => if hex_lower(
                        spec_sha256(
                            encode_utf8(
                                event_json_of(
                                    o.session_id@,
                                    o.source@,
                                    o.external_session_id@,
                                    o.event_id@,
                                    kind@,
                                    occurred,
                                ),
                            ),
                        ),
                    ) == o.fingerprint@ {
                        None
                    } else {
                        Some("Hook fingerprint mismatch"@)
                    },
                }
            },
        }
    }
}

/// The import check on stored observations is no stricter than live ingestion: an
/// observation with a kind whose identifiers passed ingestion, whose stored time is the
/// normalized form ingestion produced (normalizing it again changes nothing) and
/// whose fingerprint is the lowercase hex digest ingestion computed from its fields
/// is accepted.
pub proof fn law_ingested_observation_is_importable(o: StoredObservation)
    requires
        identifier_ok(o.session_id@, 128),
        identifier_ok(o.source@, 32),
        identifier_ok(o.external_session_id@, 128),
        identifier_ok(o.event_id@, 128),
        o.kind is Some,
        spec_rfc3339_utc(o.received_at@) is Some,
        spec_rfc3339_utc(o.occurred_at@) == Some(o.occurred_at@),
        fingerprint_format_ok(o.fingerprint@),
        o.fingerprint@ == hex_lower(
            spec_sha256(
                encode_utf8(
                    event_json_of(
                        o.session_id@,
                        o.source@,
                        o.external_session_id@,
                        o.event_id@,
                        o.kind.unwrap()@,
                        o.occurred_at@,
                    ),
                ),
            ),
        ),
    ensures
        observation_problem(o) is None,
{
}

/// Checks a stored hook observation against the rules of live ingestion.
pub fn check_stored_observation(o: &StoredObservation) -> (r: AppResult<()>)
    ensures
        match observation_problem(*o) {
            None => r is Ok,
            Some(reason) => r matches Err(e) && is_refused(e, reason),
        },
{
    if !stored_identifier(o.session_id.as_str(), 128) || !stored_identifier(o.source.as_str(), 32)
        || !stored_identifier(o.external_session_id.as_str(), 128) || !stored_identifier(
        o.event_id.as_str(),
        128,
    ) {
        return Err(AppError::invalid("source", "invalid Hook identifier"));
    }
    if !fingerprint_format(o.fingerprint.as_str()) {
        return Err(AppError::invalid("source", "invalid Hook fingerprint"));
    }
    match &o.kind {
        None => Ok(()),
        Some(kind) => {
            if rfc3339_utc(o.received_at.as_str()).is_none() {
                return Err(AppError::invalid("source", "invalid Hook time"));
            }
            let occurred = match rfc3339_utc(o.occurred_at.as_str()) {
                Some(t) => t,
                None => {
                    return Err(AppError::invalid("source", "invalid Hook time"));
                },
            };
            let event = HookEventInput {
                schema_version: 1,
                session_id: owned(o.session_id.as_str()),
                source: owned(o.source.as_str()),
                external_session_id: owned(o.external_session_id.as_str()),
                event_id: owned(o.event_id.as_str()),
                kind: owned(kind.as_str()),
                occurred_at: occurred,
            };
            let digest = event_fingerprint(&event);
            if str_equal(digest.as_str(), o.fingerprint.as_str()) {
                Ok(())
            } else {
                Err(AppError::invalid("source", "Hook fingerprint mismatch"))
            }
        },
    }
}

/// The tables that a Schema 2 snapshot copies.
pub open spec fn tables2() -> Seq<Seq<char>> {
    seq![
        "tasks"@,
        "sessions"@,
        "checkpoints"@,
        "task_notes"@,
        "history"@,
        "session_imports"@,
        "session_events"@,
    ]
}

/// The tables that a Schema 4 snapshot copies.
pub open spec fn tables4() -> Seq<Seq<char>> {
    seq![
        "projects"@,
        "project_history"@,
        "components"@,
        "repositories"@,
        "source_roots"@,
        "tasks"@,
        "sessions"@,
        "checkpoints"@,
        "task_notes"@,
        "history"@,
        "session_imports"@,
        "session_events"@,
        "task_components"@,
    ]
}

/// The tables that a Schema 5 or 6 snapshot copies.
pub open spec fn tables5() -> Seq<Seq<char>> {
    tables4().push("project_profiles"@)
}

/// The autoincrement columns of a Schema 2 snapshot, by table.
pub open spec fn sequences2() -> Seq<(Seq<char>, Seq<char>)> {
    seq![
        ("tasks"@, "id"@),
        ("task_notes"@, "id"@),
        ("history"@, "id"@),
        ("session_events"@, "sequence"@),
    ]
}

/// The autoincrement columns of a Schema 4, 5 or 6 snapshot, by table.
pub open spec fn sequences4() -> Seq<(Seq<char>, Seq<char>)> {
    sequences2() + seq![
        ("projects"@, "id"@),
        ("project_history"@, "id"@),
        ("components"@, "id"@),
        ("repositories"@, "id"@),
        ("source_roots"@, "id"@),
    ]
}

/// The project tables that a Schema 2 copy must leave empty.
pub open spec fn project_tables() -> Seq<Seq<char>> {
    seq![
        "project_profiles"@,
        "projects"@,
        "project_history"@,
        "components"@,
        "repositories"@,
        "source_roots"@,
        "task_components"@,
    ]
}

/// What a snapshot of a supported schema version copies.
#[derive(Debug, Clone)]
pub struct SchemaPlan {
    pub tables: Vec<String>,
    pub sequences: Vec<(String, String)>,
    pub empty_tables: Vec<String>,
}

pub open spec fn pairs_view(v: Seq<(String, String)>) -> Seq<(Seq<char>, Seq<char>)> {
    v.map_values(|p: (String, String)| (p.0@, p.1@))
}

/// The plan of a supported source schema version: the tables copied, their
/// autoincrement columns and the tables that must stay empty.
pub open spec fn spec_schema_plan(version: i64) -> Option<(Seq<Seq<char>>, Seq<(Seq<char>, Seq<char>)>, Seq<Seq<char>>)> {
    if version == 2 {
        Some((tables2(), sequences2(), project_tables()))
    } else if version == 4 {
        Some((tables4(), sequences4(), seq!["project_profiles"@]))
    } else if version == 5 || version == 6 {
        Some((tables5(), sequences4(), Seq::empty()))
    } else {
        None
    }
}

fn strings(v: &Vec<&str>) -> (r: Vec<String>)
    ensures
        strings_view(r@) == v@.map_values(|s: &str| s@),
{
    let mut out: Vec<String> = Vec::new();
    let mut i: usize = 0;
    while i < v.len()
        invariant
            i <= v@.len(),
            out@.len() == i,
            forall|k: int| 0 <= k < i ==> #[trigger] out@[k]@ == v@[k]@,
        decreases v@.len() - i,
    {
        out.push(owned(v[i]));
        i = i + 1;
    }
    assert(strings_view(out@) =~= v@.map_values(|s: &str| s@));
    out
}

fn pairs(v: &Vec<(&str, &str)>) -> (r: Vec<(String, String)>)
    ensures
        pairs_view(r@) == v@.map_values(|p: (&str, &str)| (p.0@, p.1@)),
{
    let mut out: Vec<(String, String)> = Vec::new();
    let mut i: usize = 0;
    while i < v.len()
        invariant
            i <= v@.len(),
            out@.len() == i,
            forall|k: int| 0 <= k < i ==> #[trigger] out@[k].0@ == v@[k].0@ && out@[k].1@ == v@[k].1@,
        decreases v@.len() - i,
    {
        let (a, b) = v[i];
        let ghost before = out@;
        out.push((owned(a), owned(b)));
        proof {
            assert(out@[i as int].0@ == v@[i as int].0@ && out@[i as int].1@ == v@[i as int].1@);
            assert forall|k: int| 0 <= k < i + 1 implies #[trigger] out@[k].0@ == v@[k].0@
                && out@[k].1@ == v@[k].1@ by {
                if k < i {
                    assert(out@[k] == before[k]);
                }
            }
        }
        i = i + 1;
    }
    assert(pairs_view(out@) =~= v@.map_values(|p: (&str, &str)| (p.0@, p.1@)));
    out
}

/// Decides what a snapshot of `version` copies; other versions are refused.
pub fn schema_plan(version: i64) -> (r: AppResult<SchemaPlan>)
    ensures
        match spec_schema_plan(version) {
            Some((t, q, e)) => r matches Ok(p) && strings_view(p.tables@) == t && pairs_view(
                p.sequences@,
            ) == q && strings_view(p.empty_tables@) == e,
            None => r matches Err(e) && is_refused(e, "unsupported source schema"@),
        },
{
    if version != 2 && version != 4 && version != 5 && version != 6 {
        return Err(AppError::invalid("source", "unsupported source schema"));
    }
    let base = vec![
        "tasks",
        "sessions",
        "checkpoints",
        "task_notes",
        "history",
        "session_imports",
        "session_events",
    ];
    let seq2 = vec![("tasks", "id"), ("task_notes", "id"), ("history", "id"), ("session_events", "sequence")];
    let seq4 = vec![
        ("tasks", "id"),
        ("task_notes", "id"),
        ("history", "id"),
        ("session_events", "sequence"),
        ("projects", "id"),
        ("project_history", "id"),
        ("components", "id"),
        ("repositories", "id"),
        ("source_roots", "id"),
    ];
    let t4 = vec![
        "projects",
        "project_history",
        "components",
        "repositories",
        "source_roots",
        "tasks",
        "sessions",
        "checkpoints",
        "task_notes",
        "history",
        "session_imports",
        "session_events",
        "task_components",
    ];
    let t5 = vec![
        "projects",
        "project_history",
        "components",
        "repositories",
        "source_roots",
        "tasks",
        "sessions",
        "checkpoints",
        "task_notes",
        "history",
        "session_imports",
        "session_events",
        "task_components",
        "project_profiles",
    ];
    let empty2 = vec![
        "project_profiles",
        "projects",
        "project_history",
        "components",
        "repositories",
        "source_roots",
        "task_components",
    ];
    let empty4 = vec!["project_profiles"];
    let none: Vec<&str> = Vec::new();
    proof {
        assert(base@.map_values(|s: &str| s@) =~= tables2());
        assert(t4@.map_values(|s: &str| s@) =~= tables4());
        assert(t5@.map_values(|s: &str| s@) =~= tables5());
        assert(seq2@.map_values(|p: (&str, &str)| (p.0@, p.1@)) =~= sequences2());
        assert(seq4@.map_values(|p: (&str, &str)| (p.0@, p.1@)) =~= sequences4());
        assert(empty2@.map_values(|s: &str| s@) =~= project_tables());
        assert(empty4@.map_values(|s: &str| s@) =~= seq!["project_profiles"@]);
        assert(none@.map_values(|s: &str| s@) =~= Seq::<Seq<char>>::empty());
    }
    if version == 2 {
        Ok(SchemaPlan { tables: strings(&base), sequences: pairs(&seq2), empty_tables: strings(&empty2) })
    } else if version == 4 {
        Ok(SchemaPlan { tables: strings(&t4), sequences: pairs(&seq4), empty_tables: strings(&empty4) })
    } else {
        Ok(SchemaPlan { tables: strings(&t5), sequences: pairs(&seq4), empty_tables: strings(&none) })
    }
}

/// The current columns a source table must match: a Schema 2 `tasks` table predates
/// `project_id`, which stays empty in the copy.
pub open spec fn expected_columns(version: i64, table: Seq<char>, target: Seq<Seq<char>>) -> Seq<Seq<char>> {
    if version == 2 && table == "tasks"@ {
        without(target, "project_id"@)
    } else {
        target
    }
}

/// Refuses a source table whose columns differ from the current ones.
pub fn check_columns(version: i64, table: &str, fields: &Vec<String>, target: &Vec<String>) -> (r: AppResult<()>)
    ensures
        strings_view(fields@) == expected_columns(version, table@, strings_view(target@)) ==> r is Ok,
        strings_view(fields@) != expected_columns(version, table@, strings_view(target@)) ==> (
        r matches Err(e) && is_refused(e, "source and target columns are incompatible"@)),
{
    let expected = if version == 2 && str_equal(table, "tasks") {
        strings_without(target, "project_id")
    } else {
        copy_strings(target)
    };
    if same_strings(fields, &expected) {
        Ok(())
    } else {
        Err(AppError::invalid("source", "source and target columns are incompatible"))
    }
}

/// The ordering of a copied table: its primary key.
pub open spec fn spec_copy_order(table: Seq<char>) -> Seq<char> {
    if table == "task_components"@ {
        "1,3"@
    } else {
        "1"@
    }
}

pub fn copy_order(table: &str) -> (r: &'static str)
    ensures
        r@ == spec_copy_order(table@),
{
    if str_equal(table, "task_components") {
        "1,3"
    } else {
        "1"
    }
}

/// `n` placeholders joined by commas.
pub open spec fn placeholders(n: nat) -> Seq<char>
    decreases n,
{
    if n == 0 {
        Seq::empty()
    } else if n == 1 {
        seq!['?']
    } else {
        placeholders((n - 1) as nat) + seq![',', '?']
    }
}

/// The statement reading a table in order.
pub open spec fn select_sql(table: Seq<char>, fields: Seq<Seq<char>>, order: Seq<char>) -> Seq<char> {
    "SELECT "@ + join(fields, ',') + " FROM "@ + table + " ORDER BY "@ + order
}

/// The statement writing one row of a table.
pub open spec fn insert_sql(table: Seq<char>, fields: Seq<Seq<char>>) -> Seq<char> {
    "INSERT INTO "@ + table + " ("@ + join(fields, ',') + ") VALUES ("@ + placeholders(
        fields.len(),
    ) + ")"@
}

fn push_placeholders(out: &mut Vec<char>, n: usize)
    ensures
        final(out)@ == old(out)@ + placeholders(n as nat),
{
    let ghost start = out@;
    let mut i: usize = 0;
    while i < n
        invariant
            i <= n,
            out@ == start + placeholders(i as nat),
        decreases n - i,
    {
        if i > 0 {
            out.push(',');
        }
        out.push('?');
        proof {
            if i == 0 {
                assert(out@ =~= start + placeholders(1));
            } else {
                assert(out@ =~= start + placeholders((i + 1) as nat));
            }
        }
        i = i + 1;
    }
}

fn names_of(fields: &Vec<String>) -> (r: Vec<Vec<char>>)
    ensures
        r@.map_values(|x: Vec<char>| x@) == strings_view(fields@),
{
    let mut out: Vec<Vec<char>> = Vec::new();
    let mut i: usize = 0;
    while i < fields.len()
        invariant
            i <= fields@.len(),
            out@.len() == i,
            forall|k: int| 0 <= k < i ==> #[trigger] out@[k]@ == fields@[k]@,
        decreases fields@.len() - i,
    {
        out.push(chars_of(fields[i].as_str()));
        i = i + 1;
    }
    assert(out@.map_values(|x: Vec<char>| x@) =~= strings_view(fields@));
    out
}

/// The statements that read a table of the snapshot in `order` and write its rows
/// into the copy, column for column.
pub fn copy_statements(table: &str, fields: &Vec<String>, order: &str) -> (r: (String, String))
    ensures
        r.0@ == select_sql(table@, strings_view(fields@), order@),
        r.1@ == insert_sql(table@, strings_view(fields@)),
{
    let names = names_of(fields);
    let mut select: Vec<char> = Vec::new();
    push_str(&mut select, "SELECT ");
    push_join(&mut select, &names, ',');
    push_str(&mut select, " FROM ");
    push_str(&mut select, table);
    push_str(&mut select, " ORDER BY ");
    push_str(&mut select, order);
    let mut insert: Vec<char> = Vec::new();
    push_str(&mut insert, "INSERT INTO ");
    push_str(&mut insert, table);
    push_str(&mut insert, " (");
    push_join(&mut insert, &names, ',');
    push_str(&mut insert, ") VALUES (");
    push_placeholders(&mut insert, fields.len());
    push_str(&mut insert, ")");
    proof {
        assert(select@ =~= select_sql(table@, strings_view(fields@), order@));
        assert(insert@ =~= insert_sql(table@, strings_view(fields@)));
    }
    (string_from_chars(select.as_slice()), string_from_chars(insert.as_slice()))
}

/// A stored SQLite value; a real number is kept as its IEEE 754 bit pattern.
#[derive(Debug, Clone)]
pub enum StoredValue {
    Null,
    Integer(i64),
    Real(u64),
    Text(String),
    Blob(Vec<u8>),
}

/// The eight little-endian bytes of `x`.
pub open spec fn le64(x: u64) -> Seq<u8> {
    seq![
        (x & 0xff) as u8,
        ((x >> 8u64) & 0xff) as u8,
        ((x >> 16u64) & 0xff) as u8,
        ((x >> 24u64) & 0xff) as u8,
        ((x >> 32u64) & 0xff) as u8,
        ((x >> 40u64) & 0xff) as u8,
        ((x >> 48u64) & 0xff) as u8,
        ((x >> 56u64) & 0xff) as u8,
    ]
}

/// The typed, length-delimited encoding of one value: a tag byte (`N`, `I`, `F`, `T`,
/// `B`), then the value's little-endian bits, or its byte length and bytes.
pub open spec fn value_encoding(v: StoredValue) -> Seq<u8> {
    match v {
        StoredValue::Null => seq![78u8],
        StoredValue::Integer(i) => seq![73u8] + le64(i as u64),
        StoredValue::Real(bits) => seq![70u8] + le64(bits),
        StoredValue::Text(t) => seq![84u8] + le64(encode_utf8(t@).len() as u64) + encode_utf8(t@),
        StoredValue::Blob(b) => seq![66u8] + le64(b@.len() as u64) + b@,
    }
}

pub open spec fn values_encoding(values: Seq<StoredValue>) -> Seq<u8>
    decreases values.len(),
{
    if values.len() == 0 {
        Seq::empty()
    } else {
        values_encoding(values.drop_last()) + value_encoding(values.last())
    }
}

/// The encoding of one row: `R`, then its values in column order. A table's digest
/// is the SHA-256 of its rows' encodings in primary key order.
pub open spec fn row_encoding(values: Seq<StoredValue>) -> Seq<u8> {
    seq![82u8] + values_encoding(values)
}

/// Two stored values hold the same SQLite value.
pub open spec fn same_value(a: StoredValue, b: StoredValue) -> bool {
    match (a, b) {
        (StoredValue::Null, StoredValue::Null) => true,
        (StoredValue::Integer(x), StoredValue::Integer(y)) => x == y,
        (StoredValue::Real(x), StoredValue::Real(y)) => x == y,
        (StoredValue::Text(x), StoredValue::Text(y)) => x@ == y@,
        (StoredValue::Blob(x), StoredValue::Blob(y)) => x@ == y@,
        _ => false,
    }
}

/// A value whose byte length fits its eight length bytes.
pub open spec fn value_fits(v: StoredValue) -> bool {
    match v {
        StoredValue::Text(t) => encode_utf8(t@).len() <= u64::MAX,
        StoredValue::Blob(b) => b@.len() <= u64::MAX,
        _ => true,
    }
}

/// Every value of every row fits its length bytes.
pub open spec fn rows_fit(rows: Seq<Seq<StoredValue>>) -> bool {
    forall|i: int, j: int|
        0 <= i < rows.len() && 0 <= j < rows[i].len() ==> value_fits(#[trigger] rows[i][j])
}

/// Two tables hold the same rows, value by value.
pub open spec fn same_rows(r1: Seq<Seq<StoredValue>>, r2: Seq<Seq<StoredValue>>) -> bool {
    &&& r1.len() == r2.len()
    &&& forall|i: int| 0 <= i < r1.len() ==> (#[trigger] r1[i]).len() == r2[i].len()
    &&& forall|i: int, j: int|
        0 <= i < r1.len() && 0 <= j < r1[i].len() ==> same_value(#[trigger] r1[i][j], r2[i][j])
}

/// The rows of a table in order, each encoded as a row: what a table digest hashes.
pub open spec fn rows_encoding(rows: Seq<Seq<StoredValue>>) -> Seq<u8>
    decreases rows.len(),
{
    if rows.len() == 0 {
        Seq::empty()
    } else {
        row_encoding(rows[0]) + rows_encoding(rows.drop_first())
    }
}

/// The tag byte that starts a value's encoding.
pub open spec fn value_tag(v: StoredValue) -> u8 {
    match v {
        StoredValue::Null => 78u8,
        StoredValue::Integer(_) => 73u8,
        StoredValue::Real(_) => 70u8,
        StoredValue::Text(_) => 84u8,
        StoredValue::Blob(_) => 66u8,
    }
}

proof fn lemma_le64_injective(x: u64, y: u64)
    requires
        le64(x) == le64(y),
    ensures
        x == y,
{
    assert(le64(x)[0] == le64(y)[0] && le64(x)[1] == le64(y)[1] && le64(x)[2] == le64(y)[2]
        && le64(x)[3] == le64(y)[3] && le64(x)[4] == le64(y)[4] && le64(x)[5] == le64(y)[5]
        && le64(x)[6] == le64(y)[6] && le64(x)[7] == le64(y)[7]);
    assert(
        ((x & 0xff) as u8 == (y & 0xff) as u8 && ((x >> 8u64) & 0xff) as u8 == ((y >> 8u64)
            & 0xff) as u8 && ((x >> 16u64) & 0xff) as u8 == ((y >> 16u64) & 0xff) as u8 && ((x
            >> 24u64) & 0xff) as u8 == ((y >> 24u64) & 0xff) as u8 && ((x >> 32u64) & 0xff) as u8
            == ((y >> 32u64) & 0xff) as u8 && ((x >> 40u64) & 0xff) as u8 == ((y >> 40u64) & 0xff)
            as u8 && ((x >> 48u64) & 0xff) as u8 == ((y >> 48u64) & 0xff) as u8 && ((x >> 56u64)
            & 0xff) as u8 == ((y >> 56u64) & 0xff) as u8) ==> x == y
    ) by (bit_vector);
}

proof fn lemma_i64_bits_injective(i: i64, j: i64)
    requires
        i as u64 == j as u64,
    ensures
        i == j,
{
    assert(i as u64 == j as u64 ==> i == j) by (bit_vector);
}

/// A value's encoding starts with its tag.
proof fn lemma_value_tag(v: StoredValue)
    ensures
        value_encoding(v).len() >= 1,
        value_encoding(v)[0] == value_tag(v),
        value_tag(v) != 82u8,
{
}

/// A length-prefixed payload followed by anything is read back as the payload and
/// what follows it.
proof fn lemma_length_prefixed(tag: u8, p: Seq<u8>, a: Seq<u8>, q: Seq<u8>, b: Seq<u8>)
    requires
        p.len() <= u64::MAX,
        q.len() <= u64::MAX,
        seq![tag] + le64(p.len() as u64) + p + a == seq![tag] + le64(q.len() as u64) + q + b,
    ensures
        p == q,
        a == b,
{
    let l = seq![tag] + le64(p.len() as u64) + p + a;
    let r = seq![tag] + le64(q.len() as u64) + q + b;
    assert(le64(p.len() as u64) =~= l.subrange(1, 9));
    assert(le64(q.len() as u64) =~= r.subrange(1, 9));
    lemma_le64_injective(p.len() as u64, q.len() as u64);
    let end: int = 9 + p.len() as int;
    assert(p =~= l.subrange(9, end));
    assert(q =~= r.subrange(9, end));
    assert(a =~= l.subrange(end, l.len() as int));
    assert(b =~= r.subrange(end, r.len() as int));
}

/// One encoded value followed by anything is read back as that value and what
/// follows it.
proof fn lemma_value_front(v: StoredValue, a: Seq<u8>, w: StoredValue, b: Seq<u8>)
    requires
        value_fits(v),
        value_fits(w),
        value_encoding(v) + a == value_encoding(w) + b,
    ensures
        same_value(v, w),
        a == b,
{
    let l = value_encoding(v) + a;
    let r = value_encoding(w) + b;
    lemma_value_tag(v);
    lemma_value_tag(w);
    assert(l[0] == r[0]);
    match (v, w) {
        (StoredValue::Null, StoredValue::Null) => {
            assert(a =~= l.drop_first());
            assert(b =~= r.drop_first());
        },
        (StoredValue::Integer(x), StoredValue::Integer(y)) => {
            assert(le64(x as u64) =~= l.subrange(1, 9));
            assert(le64(y as u64) =~= r.subrange(1, 9));
            lemma_le64_injective(x as u64, y as u64);
            lemma_i64_bits_injective(x, y);
            assert(a =~= l.subrange(9, l.len() as int));
            assert(b =~= r.subrange(9, r.len() as int));
            assert(same_value(v, w));
        },
        (StoredValue::Real(x), StoredValue::Real(y)) => {
            assert(le64(x) =~= l.subrange(1, 9));
            assert(le64(y) =~= r.subrange(1, 9));
            lemma_le64_injective(x, y);
            assert(a =~= l.subrange(9, l.len() as int));
            assert(b =~= r.subrange(9, r.len() as int));
        },
        (StoredValue::Text(x), StoredValue::Text(y)) => {
            let p = encode_utf8(x@);
            let q = encode_utf8(y@);
            lemma_length_prefixed(84u8, p, a, q, b);
            vstd::utf8::encode_utf8_decode_utf8(x@);
            vstd::utf8::encode_utf8_decode_utf8(y@);
            assert(x@ == y@);
            assert(a == b);
        },
        (StoredValue::Blob(x), StoredValue::Blob(y)) => {
            lemma_length_prefixed(66u8, x@, a, y@, b);
        },
        _ => {
            assert(l[0] == value_encoding(v)[0]);
            assert(r[0] == value_encoding(w)[0]);
            assert(value_tag(v) != value_tag(w));
        },
    }
}

proof fn lemma_values_append(a: Seq<StoredValue>, b: Seq<StoredValue>)
    ensures
        values_encoding(a + b) == values_encoding(a) + values_encoding(b),
    decreases b.len(),
{
    if b.len() == 0 {
        assert(a + b =~= a);
        assert(values_encoding(a) + values_encoding(b) =~= values_encoding(a));
    } else {
        lemma_values_append(a, b.drop_last());
        assert((a + b).drop_last() =~= a + b.drop_last());
        assert((a + b).last() == b.last());
        assert(values_encoding(a + b) =~= values_encoding(a) + values_encoding(b.drop_last())
            + value_encoding(b.last()));
    }
}

proof fn lemma_values_front(vs: Seq<StoredValue>)
    requires
        vs.len() > 0,
    ensures
        values_encoding(vs) == value_encoding(vs[0]) + values_encoding(vs.drop_first()),
{
    let one = seq![vs[0]];
    lemma_values_append(one, vs.drop_first());
    assert(one + vs.drop_first() =~= vs);
    assert(one.drop_last() =~= Seq::<StoredValue>::empty());
    assert(values_encoding(Seq::<StoredValue>::empty()) =~= Seq::<u8>::empty());
    assert(values_encoding(one) == values_encoding(one.drop_last()) + value_encoding(one.last()));
    assert(values_encoding(one) =~= value_encoding(vs[0]));
}

/// What may follow a row's values: nothing, or the next row.
pub open spec fn row_boundary(a: Seq<u8>) -> bool {
    a.len() == 0 || a[0] == 82u8
}

/// A run of encoded values up to a row boundary is read back value by value.
proof fn lemma_values_stream(v1: Seq<StoredValue>, a: Seq<u8>, v2: Seq<StoredValue>, b: Seq<u8>)
    requires
        forall|j: int| 0 <= j < v1.len() ==> value_fits(#[trigger] v1[j]),
        forall|j: int| 0 <= j < v2.len() ==> value_fits(#[trigger] v2[j]),
        row_boundary(a),
        row_boundary(b),
        values_encoding(v1) + a == values_encoding(v2) + b,
    ensures
        v1.len() == v2.len(),
        forall|j: int| 0 <= j < v1.len() ==> same_value(#[trigger] v1[j], v2[j]),
        a == b,
    decreases v1.len() + v2.len(),
{
    if v1.len() == 0 && v2.len() == 0 {
        assert(values_encoding(v1) + a =~= a);
        assert(values_encoding(v2) + b =~= b);
    } else if v1.len() == 0 {
        lemma_values_front(v2);
        lemma_value_tag(v2[0]);
        let r = values_encoding(v2) + b;
        assert(values_encoding(v1) + a =~= a);
        assert(r[0] == value_tag(v2[0]));
    } else if v2.len() == 0 {
        lemma_values_front(v1);
        lemma_value_tag(v1[0]);
        let l = values_encoding(v1) + a;
        assert(values_encoding(v2) + b =~= b);
        assert(l[0] == value_tag(v1[0]));
    } else {
        lemma_values_front(v1);
        lemma_values_front(v2);
        let t1 = values_encoding(v1.drop_first()) + a;
        let t2 = values_encoding(v2.drop_first()) + b;
        assert(values_encoding(v1) + a =~= value_encoding(v1[0]) + t1);
        assert(values_encoding(v2) + b =~= value_encoding(v2[0]) + t2);
        assert(value_fits(v1[0]) && value_fits(v2[0]));
        lemma_value_front(v1[0], t1, v2[0], t2);
        assert forall|j: int| 0 <= j < v1.drop_first().len() implies value_fits(
            #[trigger] v1.drop_first()[j],
        ) by {
            assert(v1.drop_first()[j] == v1[j + 1]);
        }
        assert forall|j: int| 0 <= j < v2.drop_first().len() implies value_fits(
            #[trigger] v2.drop_first()[j],
        ) by {
            assert(v2.drop_first()[j] == v2[j + 1]);
        }
        lemma_values_stream(v1.drop_first(), a, v2.drop_first(), b);
        assert forall|j: int| 0 <= j < v1.len() implies same_value(#[trigger] v1[j], v2[j]) by {
            if j > 0 {
                assert(v1.drop_first()[j - 1] == v1[j]);
                assert(v2.drop_first()[j - 1] == v2[j]);
            }
        }
    }
}

proof fn lemma_rows_boundary(rows: Seq<Seq<StoredValue>>)
    ensures
        row_boundary(rows_encoding(rows)),
{
    if rows.len() > 0 {
        assert(rows_encoding(rows)[0] == row_encoding(rows[0])[0]);
    }
}

/// A table's row encodings determine its rows: equal table digests can only come
/// from tables with the same rows, value by value, or from a SHA-256 collision.
pub proof fn law_table_encoding_injective(r1: Seq<Seq<StoredValue>>, r2: Seq<Seq<StoredValue>>)
    requires
        rows_fit(r1),
        rows_fit(r2),
        rows_encoding(r1) == rows_encoding(r2),
    ensures
        same_rows(r1, r2),
    decreases r1.len() + r2.len(),
{
    if r1.len() == 0 && r2.len() == 0 {
    } else if r1.len() == 0 {
        assert(rows_encoding(r2).len() > 0);
    } else if r2.len() == 0 {
        assert(rows_encoding(r1).len() > 0);
    } else {
        let t1 = rows_encoding(r1.drop_first());
        let t2 = rows_encoding(r2.drop_first());
        let l = rows_encoding(r1);
        let r = rows_encoding(r2);
        assert(l.drop_first() =~= values_encoding(r1[0]) + t1);
        assert(r.drop_first() =~= values_encoding(r2[0]) + t2);
        lemma_rows_boundary(r1.drop_first());
        lemma_rows_boundary(r2.drop_first());
        assert forall|j: int| 0 <= j < r1[0].len() implies value_fits(#[trigger] r1[0][j]) by {
            assert(value_fits(r1[0][j]));
        }
        assert forall|j: int| 0 <= j < r2[0].len() implies value_fits(#[trigger] r2[0][j]) by {
            assert(value_fits(r2[0][j]));
        }
        lemma_values_stream(r1[0], t1, r2[0], t2);
        assert(rows_fit(r1.drop_first())) by {
            assert forall|i: int, j: int|
                0 <= i < r1.drop_first().len() && 0 <= j < r1.drop_first()[i].len() implies value_fits(
                #[trigger] r1.drop_first()[i][j],
            ) by {
                assert(r1.drop_first()[i] == r1[i + 1]);
            }
        }
        assert(rows_fit(r2.drop_first())) by {
            assert forall|i: int, j: int|
                0 <= i < r2.drop_first().len() && 0 <= j < r2.drop_first()[i].len() implies value_fits(
                #[trigger] r2.drop_first()[i][j],
            ) by {
                assert(r2.drop_first()[i] == r2[i + 1]);
            }
        }
        law_table_encoding_injective(r1.drop_first(), r2.drop_first());
        assert forall|i: int| 0 <= i < r1.len() implies (#[trigger] r1[i]).len() == r2[i].len() by {
            if i > 0 {
                assert(r1.drop_first()[i - 1] == r1[i]);
                assert(r2.drop_first()[i - 1] == r2[i]);
            }
        }
        assert forall|i: int, j: int|
            0 <= i < r1.len() && 0 <= j < r1[i].len() implies same_value(#[trigger] r1[i][j], r2[i][j]) by {
            if i > 0 {
                assert(r1.drop_first()[i - 1] == r1[i]);
                assert(r2.drop_first()[i - 1] == r2[i]);
            }
        }
    }
}

fn push_le64(out: &mut Vec<u8>, x: u64)
    ensures
        final(out)@ == old(out)@ + le64(x),
{
    let ghost start = out@;
    out.push((x & 0xff) as u8);
    out.push(((x >> 8u64) & 0xff) as u8);
    out.push(((x >> 16u64) & 0xff) as u8);
    out.push(((x >> 24u64) & 0xff) as u8);
    out.push(((x >> 32u64) & 0xff) as u8);
    out.push(((x >> 40u64) & 0xff) as u8);
    out.push(((x >> 48u64) & 0xff) as u8);
    out.push(((x >> 56u64) & 0xff) as u8);
    assert(out@ =~= start + le64(x));
}

fn push_bytes(out: &mut Vec<u8>, b: &[u8])
    ensures
        final(out)@ == old(out)@ + b@,
{
    let ghost start = out@;
    let mut i: usize = 0;
    while i < b.len()
        invariant
            i <= b@.len(),
            out@ == start + b@.take(i as int),
        decreases b@.len() - i,
    {
        out.push(b[i]);
        proof {
            assert(b@.take(i + 1) =~= b@.take(i as int).push(b@[i as int]));
        }
        i = i + 1;
    }
    assert(b@.take(b@.len() as int) =~= b@);
}

fn push_value(out: &mut Vec<u8>, v: &StoredValue)
    ensures
        final(out)@ == old(out)@ + value_encoding(*v),
{
    let ghost start = out@;
    match v {
        StoredValue::Null => {
            out.push(78u8);
        },
        StoredValue::Integer(i) => {
            out.push(73u8);
            push_le64(out, *i as u64);
        },
        StoredValue::Real(bits) => {
            out.push(70u8);
            push_le64(out, *bits);
        },
        StoredValue::Text(t) => {
            let b = t.as_str().as_bytes();
            out.push(84u8);
            push_le64(out, b.len() as u64);
            push_bytes(out, b);
        },
        StoredValue::Blob(b) => {
            out.push(66u8);
            push_le64(out, b.len() as u64);
            push_bytes(out, b.as_slice());
        },
    }
    assert(out@ =~= start + value_encoding(*v));
}

/// Appends the encoding of one row to `out`.
pub fn push_row(out: &mut Vec<u8>, values: &Vec<StoredValue>)
    ensures
        final(out)@ == old(out)@ + row_encoding(values@),
{
    let ghost start = out@;
    out.push(82u8);
    let mut i: usize = 0;
    assert(values@.take(0) =~= Seq::<StoredValue>::empty());
    while i < values.len()
        invariant
            i <= values@.len(),
            out@ == start + seq![82u8] + values_encoding(values@.take(i as int)),
        decreases values@.len() - i,
    {
        push_value(out, &values[i]);
        proof {
            assert(values@.take(i + 1).drop_last() =~= values@.take(i as int));
            assert(values@.take(i + 1).last() == values@[i as int]);
            assert(out@ =~= start + seq![82u8] + values_encoding(values@.take(i + 1)));
        }
        i = i + 1;
    }
    assert(values@.take(values@.len() as int) =~= values@);
    assert(out@ =~= start + row_encoding(values@));
}

/// The column that bounds the high-water mark of `name`: that of its first entry in
/// `sequences`, `None` when the table has no autoincrement column.
pub open spec fn sequence_field(sequences: Seq<(Seq<char>, Seq<char>)>, name: Seq<char>) -> Option<Seq<char>>
    decreases sequences.len(),
{
    if sequences.len() == 0 {
        None
    } else if sequences[0].0 == name {
        Some(sequences[0].1)
    } else {
        sequence_field(sequences.subrange(1, sequences.len() as int), name)
    }
}

/// Decides which column bounds the high-water mark that a snapshot records for
/// `name`, refusing an unknown table or one whose mark was already seen.
pub fn high_water_field(sequences: &Vec<(String, String)>, seen: &Vec<String>, name: &str) -> (r: AppResult<String>)
    ensures
        sequence_field(pairs_view(sequences@), name@) is None ==> (r matches Err(e) && is_refused(
            e,
            "unknown autoincrement high-water mark"@,
        )),
        sequence_field(pairs_view(sequences@), name@) is Some && strings_view(seen@).contains(
            name@,
        ) ==> (r matches Err(e) && is_refused(e, "duplicate autoincrement high-water mark"@)),
        sequence_field(pairs_view(sequences@), name@) is Some && !strings_view(seen@).contains(
            name@,
        ) ==> (r matches Ok(f) && f@ == sequence_field(pairs_view(sequences@), name@).unwrap()),
{
    let ghost all = pairs_view(sequences@);
    let mut i: usize = 0;
    let mut found: Option<String> = None;
    assert(all.subrange(0, all.len() as int) =~= all);
    while i < sequences.len()
        invariant
            all == pairs_view(sequences@),
            i <= sequences@.len(),
            found is None ==> sequence_field(all, name@) == sequence_field(
                all.subrange(i as int, all.len() as int),
                name@,
            ),
            found matches Some(f) ==> sequence_field(all, name@) == Some(f@),
        decreases sequences@.len() - i,
    {
        if found.is_none() {
            proof {
                let rest = all.subrange(i as int, all.len() as int);
                assert(rest.subrange(1, rest.len() as int) =~= all.subrange(i + 1, all.len() as int));
                assert(rest[0] == all[i as int]);
            }
            if str_equal(sequences[i].0.as_str(), name) {
                found = Some(owned(sequences[i].1.as_str()));
            }
        }
        i = i + 1;
    }
    proof {
        assert(all.subrange(all.len() as int, all.len() as int).len() == 0);
    }
    match found {
        None => Err(AppError::invalid("source", "unknown autoincrement high-water mark")),
        Some(f) => {
            if contains_string(seen, name) {
                Err(AppError::invalid("source", "duplicate autoincrement high-water mark"))
            } else {
                Ok(f)
            }
        },
    }
}

fn contains_string(v: &Vec<String>, x: &str) -> (r: bool)
    ensures
        r == strings_view(v@).contains(x@),
{
    let mut i: usize = 0;
    while i < v.len()
        invariant
            i <= v@.len(),
            forall|k: int| 0 <= k < i ==> #[trigger] v@[k]@ != x@,
        decreases v@.len() - i,
    {
        if str_equal(v[i].as_str(), x) {
            assert(strings_view(v@)[i as int] == x@);
            return true;
        }
        i = i + 1;
    }
    proof {
        if strings_view(v@).contains(x@) {
            let k = choose|k: int| 0 <= k < strings_view(v@).len() && strings_view(v@)[k] == x@;
            assert(v@[k]@ == x@);
        }
    }
    false
}

/// A high-water mark must be non-negative and not below the largest copied value.
pub fn check_high_water(sequence: i64, maximum: i64) -> (r: AppResult<()>)
    ensures
        sequence >= maximum && sequence >= 0 ==> r is Ok,
        !(sequence >= maximum && sequence >= 0) ==> (r matches Err(e) && is_refused(
            e,
            "invalid autoincrement high-water mark"@,
        )),
{
    if sequence < maximum || sequence < 0 {
        Err(AppError::invalid("source", "invalid autoincrement high-water mark"))
    } else {
        Ok(())
    }
}

/// Whether the copy of `table` holds rows, by the counts of the copied tables.
pub open spec fn has_rows(copied: Seq<(Seq<char>, u64)>, table: Seq<char>) -> bool {
    exists|i: int| 0 <= i < copied.len() && copied[i].0 == table && copied[i].1 > 0
}

pub open spec fn counts_view(v: Seq<(String, u64)>) -> Seq<(Seq<char>, u64)> {
    v.map_values(|p: (String, u64)| (p.0@, p.1))
}

/// Every table with an autoincrement column that received rows needs a high-water
/// mark.
pub open spec fn high_water_complete(
    sequences: Seq<(Seq<char>, Seq<char>)>,
    copied: Seq<(Seq<char>, u64)>,
    seen: Seq<Seq<char>>,
) -> bool {
    forall|j: int|
        0 <= j < sequences.len() && has_rows(copied, #[trigger] sequences[j].0) ==> seen.contains(
            sequences[j].0,
        )
}

fn table_has_rows(copied: &Vec<(String, u64)>, table: &str) -> (r: bool)
    ensures
        r == has_rows(counts_view(copied@), table@),
{
    let ghost cv = counts_view(copied@);
    let mut i: usize = 0;
    while i < copied.len()
        invariant
            cv == counts_view(copied@),
            i <= copied@.len(),
            forall|k: int| 0 <= k < i ==> !(#[trigger] cv[k].0 == table@ && cv[k].1 > 0),
        decreases copied@.len() - i,
    {
        if str_equal(copied[i].0.as_str(), table) && copied[i].1 > 0 {
            assert(cv[i as int].0 == table@ && cv[i as int].1 > 0);
            return true;
        }
        assert(!(cv[i as int].0 == table@ && cv[i as int].1 > 0));
        i = i + 1;
    }
    false
}

/// Refuses a copy in which a table with rows has no high-water mark.
pub fn check_high_water_complete(
    sequences: &Vec<(String, String)>,
    copied: &Vec<(String, u64)>,
    seen: &Vec<String>,
) -> (r: AppResult<()>)
    ensures
        high_water_complete(pairs_view(sequences@), counts_view(copied@), strings_view(seen@))
            ==> r is Ok,
        !high_water_complete(pairs_view(sequences@), counts_view(copied@), strings_view(seen@))
            ==> (r matches Err(e) && is_refused(e, "missing autoincrement high-water mark"@)),
{
    let ghost sv = pairs_view(sequences@);
    let mut j: usize = 0;
    while j < sequences.len()
        invariant
            sv == pairs_view(sequences@),
            j <= sequences@.len(),
            forall|k: int|
                0 <= k < j && has_rows(counts_view(copied@), #[trigger] sv[k].0) ==> strings_view(
                    seen@,
                ).contains(sv[k].0),
        decreases sequences@.len() - j,
    {
        let table = sequences[j].0.as_str();
        if table_has_rows(copied, table) && !contains_string(seen, table) {
            assert(sv[j as int].0 == table@);
            return Err(AppError::invalid("source", "missing autoincrement high-water mark"));
        }
        j = j + 1;
    }
    Ok(())
}

/// Which kind of table must stay empty in a copy.
#[derive(Debug, Clone)]
pub enum EmptyTable {
    /// Project metadata that the source schema could not hold.
    Project,
    /// The rule tables, which no older schema had.
    Rule,
}

pub open spec fn empty_reason(kind: EmptyTable) -> Seq<char> {
    match kind {
        EmptyTable::Project => "project metadata must remain empty"@,
        EmptyTable::Rule => "new rule tables must be empty"@,
    }
}

/// Refuses a copy in which a table that must stay empty holds rows.
pub fn check_empty_table(kind: EmptyTable, count: i64) -> (r: AppResult<()>)
    ensures
        count == 0 ==> r is Ok,
        count != 0 ==> (r matches Err(e) && is_refused(e, empty_reason(kind))),
{
    if count == 0 {
        return Ok(());
    }
    match kind {
        EmptyTable::Project => Err(AppError::invalid("source", "project metadata must remain empty")),
        EmptyTable::Rule => Err(AppError::invalid("source", "new rule tables must be empty")),
    }
}

/// Refuses a copy when the snapshot's data version moved while it was copied.
pub fn check_source_unchanged(before: i64, after: i64) -> (r: AppResult<()>)
    ensures
        before == after ==> r is Ok,
        before != after ==> (r matches Err(e) && is_refused(
            e,
            "source changed during copy; stop writers and take a new snapshot"@,
        )),
{
    if before == after {
        Ok(())
    } else {
        Err(AppError::invalid("source", "source changed during copy; stop writers and take a new snapshot"))
    }
}

/// What a non-following metadata read of a file path showed.
#[derive(Debug, Clone)]
pub enum FileProbe {
    /// Nothing exists at the path.
    Absent,
    /// A regular file.
    Regular,
    /// A directory, a link (dangling or not) or another kind of file.
    Other,
    /// The read failed for another reason than absence, with the failure's text.
    Failed(String),
}

/// `e` reports that a database path could not be read.
pub open spec fn is_io_failure(e: AppError, reason: Seq<char>) -> bool {
    &&& e.body.code == crate::error::ErrorCode::DatabaseUnavailable
    &&& e.body.message@ == "database path is unavailable"@
    &&& !e.body.retryable
    &&& e.exit_code == 10
    &&& e.body.details matches crate::error::ErrorDetails::Reason { reason: r }
    &&& r@ == reason
}

fn io_failure(reason: String) -> (e: AppError)
    ensures
        is_io_failure(e, reason@),
{
    AppError::from_storage(crate::error::StorageFailure::Io { reason })
}

pub open spec fn occupied_reason() -> Seq<char> {
    "destination and SQLite sidecars must not exist; merge/overwrite is forbidden"@
}

/// Refuses an import whose destination or one of its SQLite sidecars exists in any
/// form, a dangling link included: an occupied name is never replaced.
pub fn check_destination_free(probe: FileProbe) -> (r: AppResult<()>)
    ensures
        match probe {
            FileProbe::Absent => r is Ok,
            FileProbe::Failed(reason) => r matches Err(e) && is_io_failure(e, reason@),
            _ => r matches Err(e) && e.is_invalid("database"@, occupied_reason()),
        },
{
    match probe {
        FileProbe::Absent => Ok(()),
        FileProbe::Failed(reason) => Err(io_failure(reason)),
        _ => Err(
            AppError::invalid(
                "database",
                "destination and SQLite sidecars must not exist; merge/overwrite is forbidden",
            ),
        ),
    }
}

pub open spec fn sidecar_reason() -> Seq<char> {
    "source sidecars must be regular files, not links or directories"@
}

/// Refuses a source whose SQLite sidecar exists as anything but a regular file.
pub fn check_source_sidecar(probe: FileProbe) -> (r: AppResult<()>)
    ensures
        match probe {
            FileProbe::Absent | FileProbe::Regular => r is Ok,
            FileProbe::Failed(reason) => r matches Err(e) && is_io_failure(e, reason@),
            FileProbe::Other => r matches Err(e) && is_refused(e, sidecar_reason()),
        },
{
    match probe {
        FileProbe::Absent | FileProbe::Regular => Ok(()),
        FileProbe::Failed(reason) => Err(io_failure(reason)),
        FileProbe::Other => Err(
            AppError::invalid("source", "source sidecars must be regular files, not links or directories"),
        ),
    }
}

/// The destination of an import and its SQLite sidecars, which must all be absent.
pub fn destination_files(path: &str) -> (r: Vec<String>)
    ensures
        strings_view(r@) == seq![path@, path@ + "-wal"@, path@ + "-shm"@, path@ + "-journal"@],
{
    let v = vec![
        owned(path),
        owned(path).concat("-wal"),
        owned(path).concat("-shm"),
        owned(path).concat("-journal"),
    ];
    assert(strings_view(v@) =~= seq![path@, path@ + "-wal"@, path@ + "-shm"@, path@ + "-journal"@]);
    v
}

/// The SQLite sidecars of a source database, derived from its canonical name.
pub fn source_sidecars(canonical: &str) -> (r: Vec<String>)
    ensures
        strings_view(r@) == seq![canonical@ + "-wal"@, canonical@ + "-shm"@, canonical@ + "-journal"@],
{
    let v = vec![
        owned(canonical).concat("-wal"),
        owned(canonical).concat("-shm"),
        owned(canonical).concat("-journal"),
    ];
    assert(strings_view(v@) =~= seq![canonical@ + "-wal"@, canonical@ + "-shm"@, canonical@ + "-journal"@]);
    v
}

/// The schema version this build reads and writes.
pub const SCHEMA_VERSION: i64 = 8;

/// What the preflight found at the database path.
#[derive(Debug, Clone)]
pub enum DatabasePresence {
    /// Nothing: the database would be created.
    Absent,
    /// A regular file to be opened read-only.
    Present,
}

/// Decides from a metadata read of the configured database path whether the
/// preflight goes on to open it; anything but a regular file is refused.
pub fn preflight_probe(probe: FileProbe) -> (r: AppResult<DatabasePresence>)
    ensures
        match probe {
            FileProbe::Absent => r matches Ok(DatabasePresence::Absent),
            FileProbe::Regular => r matches Ok(DatabasePresence::Present),
            FileProbe::Other => r matches Err(e) && e.is_invalid(
                "database"@,
                "expected a regular database file, not a link or directory"@,
            ),
            FileProbe::Failed(reason) => r matches Err(e) && is_io_failure(e, reason@),
        },
{
    match probe {
        FileProbe::Absent => Ok(DatabasePresence::Absent),
        FileProbe::Regular => Ok(DatabasePresence::Present),
        FileProbe::Other => Err(
            AppError::invalid("database", "expected a regular database file, not a link or directory"),
        ),
        FileProbe::Failed(reason) => Err(io_failure(reason)),
    }
}

/// The decimal rendering of an integer, with a leading `-` when negative.
pub open spec fn signed_decimal(n: int) -> Seq<char> {
    if n < 0 {
        seq!['-'] + decimal((-n) as nat)
    } else {
        decimal(n as nat)
    }
}

fn push_signed(out: &mut Vec<char>, n: i64)
    ensures
        final(out)@ == old(out)@ + signed_decimal(n as int),
{
    if n < 0 {
        out.push('-');
        let m: u64 = if n == i64::MIN {
            9223372036854775808u64
        } else {
            (-n) as u64
        };
        push_decimal(out, m);
        proof {
            assert((-(n as int)) as nat == m as nat);
        }
    } else {
        push_decimal(out, n as u64);
    }
}

pub open spec fn schema_mismatch_reason(version: i64) -> Seq<char> {
    "database schema "@ + signed_decimal(version as int) + " does not match binary schema "@
        + signed_decimal(SCHEMA_VERSION as int)
        + "; use a separately backed-up migration, not automatic update"@
}

/// Refuses a database whose schema version is not this build's: it is never
/// updated automatically.
pub fn check_schema_version(version: i64) -> (r: AppResult<i64>)
    ensures
        version == SCHEMA_VERSION ==> r == Ok::<i64, AppError>(SCHEMA_VERSION),
        version != SCHEMA_VERSION ==> (r matches Err(e) && e.is_invalid(
            "database"@,
            schema_mismatch_reason(version),
        )),
{
    if version == SCHEMA_VERSION {
        return Ok(SCHEMA_VERSION);
    }
    let mut out: Vec<char> = Vec::new();
    push_str(&mut out, "database schema ");
    push_signed(&mut out, version);
    push_str(&mut out, " does not match binary schema ");
    push_signed(&mut out, SCHEMA_VERSION);
    push_str(&mut out, "; use a separately backed-up migration, not automatic update");
    assert(out@ =~= schema_mismatch_reason(version));
    let reason = string_from_chars(out.as_slice());
    Err(AppError::invalid("database", reason.as_str()))
}

pub open spec fn snapshot_version_reason(requested: i64) -> Seq<char> {
    "only Schema "@ + signed_decimal(requested as int) + " snapshots are supported"@
}

/// Refuses a snapshot whose stored schema version is not the one the import was
/// asked for.
pub fn check_snapshot_version(stored: i64, requested: i64) -> (r: AppResult<()>)
    ensures
        stored == requested ==> r is Ok,
        stored != requested ==> (r matches Err(e) && is_refused(e, snapshot_version_reason(requested))),
{
    if stored == requested {
        return Ok(());
    }
    let mut out: Vec<char> = Vec::new();
    push_str(&mut out, "only Schema ");
    push_signed(&mut out, requested);
    push_str(&mut out, " snapshots are supported");
    assert(out@ =~= snapshot_version_reason(requested));
    let reason = string_from_chars(out.as_slice());
    Err(AppError::invalid("source", reason.as_str()))
}

/// One row of a database's schema listing: the object's type, name, table and SQL
/// text (none for objects SQLite creates itself).
#[derive(Debug, Clone)]
pub struct SchemaEntry {
    pub kind: String,
    pub name: String,
    pub table: String,
    pub sql: Option<String>,
}

pub open spec fn schema_entry_view(e: SchemaEntry) -> (Seq<char>, Seq<char>, Seq<char>, Option<Seq<char>>) {
    (e.kind@, e.name@, e.table@, match e.sql {
        Some(t) => Some(t@),
        None => None,
    })
}

pub open spec fn layout_view(l: Seq<SchemaEntry>) -> Seq<(Seq<char>, Seq<char>, Seq<char>, Option<Seq<char>>)> {
    l.map_values(|e: SchemaEntry| schema_entry_view(e))
}

pub open spec fn layout_reason(version: i64) -> Seq<char> {
    "Schema "@ + signed_decimal(version as int) + " layout differs from the supported definition"@
}

fn schema_entries_equal(a: &SchemaEntry, b: &SchemaEntry) -> (r: bool)
    ensures
        r == (schema_entry_view(*a) == schema_entry_view(*b)),
{
    let sql_equal = match (&a.sql, &b.sql) {
        (Some(x), Some(y)) => str_equal(x.as_str(), y.as_str()),
        (None, None) => true,
        _ => false,
    };
    str_equal(a.kind.as_str(), b.kind.as_str()) && str_equal(a.name.as_str(), b.name.as_str())
        && str_equal(a.table.as_str(), b.table.as_str()) && sql_equal
}

fn layout_refusal(version: i64) -> (e: AppError)
    ensures
        is_refused(e, layout_reason(version)),
{
    let mut out: Vec<char> = Vec::new();
    push_str(&mut out, "Schema ");
    push_signed(&mut out, version);
    push_str(&mut out, " layout differs from the supported definition");
    assert(out@ =~= layout_reason(version));
    let reason = string_from_chars(out.as_slice());
    AppError::invalid("source", reason.as_str())
}

/// Refuses a snapshot whose schema listing (ordered by name, then type) is not,
/// entry for entry, the listing of the supported definition of Schema `version`.
pub fn check_schema_layout(snapshot: &Vec<SchemaEntry>, expected: &Vec<SchemaEntry>, version: i64) -> (r: AppResult<()>)
    ensures
        layout_view(snapshot@) == layout_view(expected@) ==> r is Ok,
        layout_view(snapshot@) != layout_view(expected@) ==> (r matches Err(e) && is_refused(e, layout_reason(version))),
{
    if snapshot.len() != expected.len() {
        assert(layout_view(snapshot@).len() != layout_view(expected@).len());
        return Err(layout_refusal(version));
    }
    let mut i: usize = 0;
    while i < snapshot.len()
        invariant
            snapshot@.len() == expected@.len(),
            forall|j: int| 0 <= j < i ==> schema_entry_view(#[trigger] snapshot@[j]) == schema_entry_view(expected@[j]),
            i <= snapshot@.len(),
        decreases snapshot@.len() - i,
    {
        if !schema_entries_equal(&snapshot[i], &expected[i]) {
            assert(layout_view(snapshot@)[i as int] != layout_view(expected@)[i as int]);
            return Err(layout_refusal(version));
        }
        i = i + 1;
    }
    assert(layout_view(snapshot@) =~= layout_view(expected@));
    Ok(())
}

/// Refuses a snapshot holding a session import larger than a session import may be
/// (`largest` is the length of the largest stored import content, if any).
pub fn check_snapshot_import_sizes(largest: Option<u64>) -> (r: AppResult<()>)
    ensures
        (largest matches Some(n) && n > MAX_IMPORT_BYTES) ==> (r matches Err(e) && is_refused(
            e,
            "session import exceeds the supported size"@,
        )),
        !(largest matches Some(n) && n > MAX_IMPORT_BYTES) ==> r is Ok,
{
    match largest {
        Some(n) => if n > MAX_IMPORT_BYTES {
            Err(AppError::invalid("source", "session import exceeds the supported size"))
        } else {
            Ok(())
        },
        None => Ok(()),
    }
}

/// What the legacy archive import reads of a task: its old status and whether it
/// still holds a current session or any repository or worktree binding.
#[derive(Debug, Clone)]
pub struct LegacyTask {
    pub status: String,
    pub has_current_session: bool,
    pub has_worktree_binding: bool,
}

pub open spec fn legacy_task_supported(t: LegacyTask) -> bool {
    t.status@ == "closed"@ && !t.has_current_session && !t.has_worktree_binding
}

pub open spec fn legacy_tasks_reason() -> Seq<char> {
    "this archive importer requires closed tasks without Worktree bindings"@
}

/// The legacy archive import takes only closed tasks without a current session and
/// without repository or worktree bindings.
pub fn check_legacy_tasks(tasks: &Vec<LegacyTask>) -> (r: AppResult<()>)
    ensures
        (forall|i: int| 0 <= i < tasks@.len() ==> legacy_task_supported(#[trigger] tasks@[i])) ==> r is Ok,
        (exists|i: int| 0 <= i < tasks@.len() && !legacy_task_supported(#[trigger] tasks@[i])) ==> (r matches Err(
            e,
        ) && is_refused(e, legacy_tasks_reason())),
{
    let mut i: usize = 0;
    while i < tasks.len()
        invariant
            i <= tasks@.len(),
            forall|k: int| 0 <= k < i ==> legacy_task_supported(#[trigger] tasks@[k]),
        decreases tasks@.len() - i,
    {
        let t = &tasks[i];
        if !str_equal(t.status.as_str(), "closed") || t.has_current_session || t.has_worktree_binding {
            return Err(
                AppError::invalid(
                    "source",
                    "this archive importer requires closed tasks without Worktree bindings",
                ),
            );
        }
        i = i + 1;
    }
    Ok(())
}

/// Refuses an import destination whose parent directory is missing, or belongs to
/// another user, or lets the group or others in (any of the `0o077` bits).
pub fn check_private_parent(is_directory: bool, owned_by_caller: bool, mode: u32) -> (r: AppResult<()>)
    ensures
        !is_directory ==> (r matches Err(e) && e.is_invalid(
            "database"@,
            "destination requires a dedicated private parent directory"@,
        )),
        is_directory && (!owned_by_caller || mode & 0o077u32 != 0) ==> (r matches Err(e)
            && e.is_invalid(
            "database"@,
            "destination parent must be private and belong to the current user"@,
        )),
        is_directory && owned_by_caller && mode & 0o077u32 == 0 ==> r is Ok,
{
    if !is_directory {
        return Err(
            AppError::invalid("database", "destination requires a dedicated private parent directory"),
        );
    }
    if !owned_by_caller || mode & 0o077u32 != 0 {
        return Err(
            AppError::invalid(
                "database",
                "destination parent must be private and belong to the current user",
            ),
        );
    }
    Ok(())
}

/// Refuses a persisted source identity whose record names another path than the
/// row that holds it.
pub fn check_persisted_identity(path: &str, record: &ExistingPathIdentityRecord) -> (r: AppResult<()>)
    ensures
        record.canonical_path@ == path@ ==> r is Ok,
        record.canonical_path@ != path@ ==> (r matches Err(e) && is_refused(
            e,
            "source path differs from persisted identity"@,
        )),
{
    if str_equal(record.canonical_path.as_str(), path) {
        Ok(())
    } else {
        Err(AppError::invalid("source", "source path differs from persisted identity"))
    }
}

} // verus!
