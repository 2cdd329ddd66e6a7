//! The health report of a database, from what the caller observed.
use vstd::prelude::*;

use crate::text::{owned, str_equal};

verus! {

/// The verdict of one check.
#[derive(Debug, Clone, Copy, PartialEq, Eq, Structural)]
pub enum CheckStatus {
    Passed,
    Warning,
    Error,
}

impl CheckStatus {
    pub fn as_str(&self) -> (r: &'static str)
        ensures
            r@ == match *self {
                CheckStatus::Passed => "ok"@,
                CheckStatus::Warning => "warning"@,
                CheckStatus::Error => "error"@,
            },
    {
        match self {
            CheckStatus::Passed => "ok",
            CheckStatus::Warning => "warning",
            CheckStatus::Error => "error",
        }
    }
}

/// A session's registered record path and whether it exists on this machine now.
#[derive(Debug, Clone)]
pub struct ObservedRecord {
    pub session_id: String,
    pub record_path: String,
    pub exists: bool,
}

/// A registered record path that does not exist on this machine.
#[derive(Debug, Clone)]
pub struct MissingRecord {
    pub session_id: String,
    pub record_path: String,
}

/// One check of the report.
#[derive(Debug, Clone)]
pub enum DoctorCheck {
    /// `SCHEMA_VERSION`: the highest applied schema version; always `ok`.
    SchemaVersion { version: i64 },
    /// `SQLITE_QUICK_CHECK`: `ok` exactly when SQLite answered `ok`.
    QuickCheck { status: CheckStatus, result: String },
    /// `FOREIGN_KEY_CHECK`: `ok` exactly when there is no violation.
    ForeignKeys { status: CheckStatus, violations: i64 },
    /// `RECORD_PATH_REFERENCES`: a warning when some registered record path is missing.
    RecordPaths { status: CheckStatus, registered: usize, missing: Vec<MissingRecord> },
}

impl DoctorCheck {
    pub fn code(&self) -> (r: &'static str)
        ensures
            r@ == match *self {
                DoctorCheck::SchemaVersion { .. } => "SCHEMA_VERSION"@,
                DoctorCheck::QuickCheck { .. } => "SQLITE_QUICK_CHECK"@,
                DoctorCheck::ForeignKeys { .. } => "FOREIGN_KEY_CHECK"@,
                DoctorCheck::RecordPaths { .. } => "RECORD_PATH_REFERENCES"@,
            },
    {
        match self {
            DoctorCheck::SchemaVersion { .. } => "SCHEMA_VERSION",
            DoctorCheck::QuickCheck { .. } => "SQLITE_QUICK_CHECK",
            DoctorCheck::ForeignKeys { .. } => "FOREIGN_KEY_CHECK",
            DoctorCheck::RecordPaths { .. } => "RECORD_PATH_REFERENCES",
        }
    }
}

/// The registered record paths that are missing, in registration order, as
/// (session id, path) pairs.
pub open spec fn missing_records(records: Seq<ObservedRecord>) -> Seq<(Seq<char>, Seq<char>)>
    decreases records.len(),
{
    if records.len() == 0 {
        Seq::empty()
    } else {
        let rest = missing_records(records.drop_last());
        let r = records.last();
        if r.exists {
            rest
        } else {
            rest.push((r.session_id@, r.record_path@))
        }
    }
}

pub open spec fn missing_view(v: Seq<MissingRecord>) -> Seq<(Seq<char>, Seq<char>)> {
    v.map_values(|m: MissingRecord| (m.session_id@, m.record_path@))
}

/// The pair a missing record is reported by: its own session id and record path.
pub open spec fn record_pair(r: ObservedRecord) -> (Seq<char>, Seq<char>) {
    (r.session_id@, r.record_path@)
}

/// The records whose path does not exist, in registration order.
pub open spec fn absent_records(records: Seq<ObservedRecord>) -> Seq<ObservedRecord> {
    records.filter(|r: ObservedRecord| !r.exists)
}

/// The missing list holds exactly the records whose path does not exist, in
/// registration order, each reported by its own session id and record path; so every
/// listed pair is one of a record whose path does not exist, and a record whose path
/// exists is never listed.
pub proof fn law_missing_lists_exactly_the_absent_records(records: Seq<ObservedRecord>)
    ensures
        missing_records(records) == absent_records(records).map_values(|r: ObservedRecord| record_pair(r)),
        forall|k: int| 0 <= k < missing_records(records).len() ==> exists|i: int|
            0 <= i < records.len() && !records[i].exists && #[trigger] missing_records(records)[k]
                == record_pair(records[i]),
    decreases records.len(),
{
    if records.len() > 0 {
        let rest = records.drop_last();
        law_missing_lists_exactly_the_absent_records(rest);
        let f = absent_records(rest);
        reveal(Seq::filter);
        assert(absent_records(records) == if !records.last().exists {
            f.push(records.last())
        } else {
            f
        });
        if !records.last().exists {
            assert(f.push(records.last()).map_values(|r: ObservedRecord| record_pair(r)) =~= f.map_values(
                |r: ObservedRecord| record_pair(r),
            ).push(record_pair(records.last())));
        }
        assert forall|k: int| 0 <= k < missing_records(records).len() implies exists|i: int|
            0 <= i < records.len() && !records[i].exists && #[trigger] missing_records(records)[k]
                == record_pair(records[i]) by {
            if k < missing_records(rest).len() {
                let i = choose|i: int|
                    0 <= i < rest.len() && !rest[i].exists && #[trigger] missing_records(rest)[k]
                        == record_pair(rest[i]);
                assert(records[i] == rest[i]);
            } else {
                assert(records[records.len() - 1] == records.last());
            }
        }
    } else {
        reveal(Seq::filter);
        assert(absent_records(records) =~= Seq::<ObservedRecord>::empty());
        assert(absent_records(records).map_values(|r: ObservedRecord| record_pair(r)) =~= Seq::<
            (Seq<char>, Seq<char>),
        >::empty());
    }
}

/// Builds the report: the schema version, SQLite's quick check, the count of foreign
/// key violations, and the registered record paths with their existence.
pub fn doctor_checks(schema: i64, quick: String, violations: i64, records: &Vec<ObservedRecord>) -> (r: Vec<DoctorCheck>)
    ensures
        r@.len() == 4,
        r@[0] == (DoctorCheck::SchemaVersion { version: schema }),
        r@[1] matches DoctorCheck::QuickCheck { status, result } && result@ == quick@ && status
            == (if quick@ == "ok"@ {
            CheckStatus::Passed
        } else {
            CheckStatus::Error
        }),
        r@[2] == (DoctorCheck::ForeignKeys {
            status: if violations == 0 {
                CheckStatus::Passed
            } else {
                CheckStatus::Error
            },
            violations,
        }),
        r@[3] matches DoctorCheck::RecordPaths { status, registered, missing } && registered
            == records@.len() && missing_view(missing@) == missing_records(records@) && status
            == (if missing_records(records@).len() == 0 {
            CheckStatus::Passed
        } else {
            CheckStatus::Warning
        }),
{
    let quick_status = if str_equal(quick.as_str(), "ok") {
        CheckStatus::Passed
    } else {
        CheckStatus::Error
    };
    let fk_status = if violations == 0 {
        CheckStatus::Passed
    } else {
        CheckStatus::Error
    };
    let mut missing: Vec<MissingRecord> = Vec::new();
    let mut i: usize = 0;
    assert(records@.take(0) =~= Seq::<ObservedRecord>::empty());
    while i < records.len()
        invariant
            i <= records@.len(),
            missing_view(missing@) == missing_records(records@.take(i as int)),
        decreases records@.len() - i,
    {
        let ghost before = missing@;
        proof {
            assert(records@.take(i + 1).drop_last() =~= records@.take(i as int));
            assert(records@.take(i + 1).last() == records@[i as int]);
        }
        if !records[i].exists {
            missing.push(
                MissingRecord {
                    session_id: owned(records[i].session_id.as_str()),
                    record_path: owned(records[i].record_path.as_str()),
                },
            );
            proof {
                assert(missing_view(missing@) =~= missing_view(before).push(
                    (records@[i as int].session_id@, records@[i as int].record_path@),
                ));
            }
        }
        i = i + 1;
    }
    assert(records@.take(records@.len() as int) =~= records@);
    let record_status = if missing.len() == 0 {
        CheckStatus::Passed
    } else {
        CheckStatus::Warning
    };
    let registered = records.len();
    let mut checks: Vec<DoctorCheck> = Vec::new();
    checks.push(DoctorCheck::SchemaVersion { version: schema });
    checks.push(DoctorCheck::QuickCheck { status: quick_status, result: quick });
    checks.push(DoctorCheck::ForeignKeys { status: fk_status, violations });
    checks.push(DoctorCheck::RecordPaths { status: record_status, registered, missing });
    checks
}

} // verus!
