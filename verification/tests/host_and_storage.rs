use steward_application::digest::sha256_hex;
use steward_application::hooks::{validate_hook_event, HookEventInput};
use steward_application::task_list::cursor_bytes;
use steward_application::doctor::{doctor_checks, CheckStatus, DoctorCheck, ObservedRecord};
use steward_application::error::{AppError, ErrorCode, ErrorDetails, PathError, SqliteFailure, StorageFailure};
use steward_application::host_context::{
    check_context_clock, check_host_snapshot, check_reread, check_source_component,
    HostContextRequest, HostInstance, Reread,
};
use steward_application::host_evidence::{
    admit_rule_bytes, ancestor_step, assessment, check_ancestor_canonical, check_evidence_clock,
    check_rule_bytes, check_rule_object, check_same_across_passes, classify_rule,
    identity_sha256, AncestorStep, EvidencePasses, EvidenceStep, PathObservation, RuleCheck,
    RULE_FILE_LIMIT, RULE_PASS_LIMIT,
};
use steward_application::path_safety::{ExistingPathIdentityRecord, FileObjectId};
use steward_application::permissions::{
    custom_database_warning, database_storage_files, mode_warning, permission_check_warning,
    ModeTarget, WarningDetails,
};
use steward_application::service::Service;
use steward_application::sessions::{SessionState, TaskState};
use steward_application::status::{parse_status, plan_status_change, StatusChange, TaskStatus};

const EMPTY_SHA256: &str = "e3b0c44298fc1c149afbf4c8996fb92427ae41e4649b934ca495991b7852b855";

fn invalid(error: &AppError) -> (String, String) {
    assert_eq!(error.body.code, ErrorCode::InvalidInput);
    match &error.body.details {
        ErrorDetails::Invalid { field, reason } => (field.clone(), reason.clone()),
        other => panic!("unexpected details {other:?}"),
    }
}

fn request() -> HostContextRequest<'static> {
    HostContextRequest { task: "#1", task_version: 3, session_id: "s1", source_id: 1 }
}

fn task() -> TaskState {
    TaskState { id: 1, version: 3, current_session_id: Some("s1".to_string()) }
}

fn session(task_id: i64, ended: bool) -> SessionState {
    SessionState {
        id: "s1".to_string(),
        task_id,
        source: None,
        external_session_id: None,
        record_path: None,
        ended,
    }
}

#[test]
fn host_snapshots_bind_version_current_session_and_project() {
    let host = HostInstance { name: "fixture", version: "1", instance_id: "instance-1" };
    assert_eq!(host.name, "fixture");
    assert_eq!(check_host_snapshot(&request(), &task(), Some(7), &session(1, false)).unwrap(), 7);
    let stale = HostContextRequest { task_version: 2, ..request() };
    let error = check_host_snapshot(&stale, &task(), Some(7), &session(1, false)).unwrap_err();
    assert_eq!(error.body.code.as_str(), "VERSION_CONFLICT");
    let other = HostContextRequest { session_id: "s2", ..request() };
    assert_eq!(
        invalid(&check_host_snapshot(&other, &task(), Some(7), &session(1, false)).unwrap_err()),
        ("hostContext".to_string(), "request must use the task's current Session".to_string())
    );
    for s in [session(2, false), session(1, true)] {
        assert_eq!(
            invalid(&check_host_snapshot(&request(), &task(), Some(7), &s).unwrap_err()).1,
            "Session is ended or belongs to another task"
        );
    }
    assert_eq!(
        invalid(&check_host_snapshot(&request(), &task(), None, &session(1, false)).unwrap_err()).1,
        "task must explicitly belong to a project"
    );
}

#[test]
fn sources_must_lie_in_the_selected_components() {
    assert!(check_source_component(None, &vec![1, 2]).is_ok());
    assert!(check_source_component(Some(5), &vec![]).is_ok());
    assert!(check_source_component(Some(2), &vec![1, 2]).is_ok());
    assert_eq!(
        invalid(&check_source_component(Some(3), &vec![1, 2]).unwrap_err()).1,
        "source component is outside the task's explicit component selection"
    );
}

#[test]
fn rereads_and_clocks_fail_closed() {
    assert!(check_reread(Reread::Snapshot, true).is_ok());
    assert_eq!(invalid(&check_reread(Reread::Snapshot, false).unwrap_err()).1, "Task or Session changed during context binding");
    assert_eq!(invalid(&check_reread(Reread::Source, false).unwrap_err()).1, "project source metadata changed during context binding");
    assert_eq!(invalid(&check_reread(Reread::Binding, false).unwrap_err()).1, "request context changed during host assessment");
    assert!(check_context_clock(5, 5).is_ok());
    assert_eq!(invalid(&check_context_clock(6, 5).unwrap_err()).1, "clock moved backwards during bound host assessment");
    assert!(check_evidence_clock(5, 9).is_ok());
    assert_eq!(
        invalid(&check_evidence_clock(9, 5).unwrap_err()),
        ("hostEvidence".to_string(), "clock moved backwards during host evidence assessment".to_string())
    );
}

#[test]
fn rule_observations_must_match_the_report() {
    assert_eq!(classify_rule(PathObservation::Missing, false).unwrap(), RuleCheck::Missing);
    assert_eq!(classify_rule(PathObservation::Regular, true).unwrap(), RuleCheck::Present);
    for (observed, digest) in [(PathObservation::Missing, true), (PathObservation::Uninspectable, false)] {
        assert_eq!(invalid(&classify_rule(observed, digest).unwrap_err()).1, "rule file cannot be inspected or disappeared");
    }
    for (observed, digest) in [(PathObservation::Regular, false), (PathObservation::Directory, true), (PathObservation::Other, true)] {
        assert_eq!(invalid(&classify_rule(observed, digest).unwrap_err()).1, "rule appeared or is not a direct regular file");
    }
    assert_eq!(ancestor_step(PathObservation::Directory, false).unwrap(), AncestorStep::Found);
    assert_eq!(ancestor_step(PathObservation::Missing, true).unwrap(), AncestorStep::Climb);
    assert_eq!(invalid(&ancestor_step(PathObservation::Missing, false).unwrap_err()).1, "missing rule has no existing ancestor");
    assert_eq!(invalid(&ancestor_step(PathObservation::Regular, true).unwrap_err()).1, "missing rule ancestor is not a direct directory");
    assert_eq!(invalid(&ancestor_step(PathObservation::Uninspectable, true).unwrap_err()).1, "cannot inspect missing rule ancestor");
    assert!(check_ancestor_canonical("/srv/rules", "/srv/rules").is_ok());
    assert_eq!(invalid(&check_ancestor_canonical("/srv/rules", "/srv/alias").unwrap_err()).1, "missing rule path uses an alias");
}

fn record(path: &str, second: u64) -> ExistingPathIdentityRecord {
    ExistingPathIdentityRecord { canonical_path: path.to_string(), object: FileObjectId { first: 66306, second } }
}

#[test]
fn rule_objects_hash_their_identity_record_json() {
    let identity = record("/srv/rules/AGENTS.md", 1234);
    let expected_json = r#"{"canonical_path":"/srv/rules/AGENTS.md","object":{"first":66306,"second":1234}}"#;
    assert_eq!(identity_sha256(&identity), sha256_hex(expected_json.as_bytes()));
    let escaped = record("/srv/\"q\"\\\n", 0);
    let escaped_json = "{\"canonical_path\":\"/srv/\\\"q\\\"\\\\\\n\",\"object\":{\"first\":66306,\"second\":0}}";
    assert_eq!(identity_sha256(&escaped), sha256_hex(escaped_json.as_bytes()));
    let digest = Some(identity_sha256(&identity));
    assert!(check_rule_object("/srv/rules/AGENTS.md", &identity, &digest).is_ok());
    for (path, given) in [
        ("/srv/alias/AGENTS.md", digest.clone()),
        ("/srv/rules/AGENTS.md", Some("0".repeat(64))),
        ("/srv/rules/AGENTS.md", None),
    ] {
        assert_eq!(invalid(&check_rule_object(path, &identity, &given).unwrap_err()).1, "rule file object or canonical path changed");
    }
}

#[test]
fn rule_bytes_are_bounded_and_hashed() {
    assert_eq!(RULE_FILE_LIMIT, 256 * 1024);
    assert_eq!(RULE_PASS_LIMIT, 4 * 1024 * 1024);
    assert_eq!(admit_rule_bytes(0, RULE_FILE_LIMIT).unwrap(), RULE_FILE_LIMIT);
    assert_eq!(admit_rule_bytes(RULE_PASS_LIMIT - 10, 10).unwrap(), RULE_PASS_LIMIT);
    for (total, len) in [(0, RULE_FILE_LIMIT + 1), (RULE_PASS_LIMIT - 10, 11), (usize::MAX, 1)] {
        assert_eq!(invalid(&admit_rule_bytes(total, len).unwrap_err()).1, "rule input exceeds 256 KiB/file or 4 MiB/pass");
    }
    assert!(check_rule_bytes(b"", &Some(EMPTY_SHA256.to_string())).is_ok());
    assert_eq!(invalid(&check_rule_bytes(b"x", &Some(EMPTY_SHA256.to_string())).unwrap_err()).1, "loaded rule bytes differ from current file");
}

#[test]
fn both_passes_must_see_the_same_objects() {
    let a = record("/srv/rules", 1);
    assert!(check_same_across_passes(RuleCheck::Present, &a, &a.clone()).is_ok());
    assert_eq!(invalid(&check_same_across_passes(RuleCheck::Present, &a, &record("/srv/rules", 2)).unwrap_err()).1, "rule object changed between passes");
    assert_eq!(invalid(&check_same_across_passes(RuleCheck::Missing, &a, &record("/srv/other", 1)).unwrap_err()).1, "missing rule ancestor changed between passes");
}

#[test]
fn assessments_never_verify_the_host_or_allow_reuse() {
    let result = assessment(b"", &vec![true, false, true], 3);
    assert_eq!(result.report_sha256, EMPTY_SHA256);
    assert_eq!((result.checked_rule_files, result.checked_missing_paths, result.reported_tools), (2, 1, 3));
    assert!(!result.host_claim_verified && !result.reuse_allowed);
}

#[test]
fn digests_hex_and_times_follow_the_outside_crates() {
    assert_eq!(sha256_hex(b""), EMPTY_SHA256);
    assert_eq!(
        sha256_hex(b"abc"),
        "ba7816bf8f01cfea414140de5dae2223b00361a396177a9cb410ff61f20015ad"
    );
    assert_eq!(cursor_bytes("00FF10").unwrap(), vec![0, 255, 16]);
    assert_eq!(cursor_bytes("00ff10").unwrap(), vec![0, 255, 16]);
    assert!(cursor_bytes("0").is_err());
    let event = HookEventInput {
        schema_version: 1,
        session_id: "s1".to_string(),
        source: "generic".to_string(),
        external_session_id: "external".to_string(),
        event_id: "e1".to_string(),
        kind: "idle".to_string(),
        occurred_at: "2026-09-08T01:30:00.5+01:00".to_string(),
    };
    assert_eq!(validate_hook_event(&event).unwrap().occurred_at, "2026-09-08T00:30:00.500000000Z");
    let z = HookEventInput { occurred_at: "2026-09-08T00:00:00Z".to_string(), ..event.clone() };
    assert_eq!(validate_hook_event(&z).unwrap().occurred_at, "2026-09-08T00:00:00.000000000Z");
    let bad = HookEventInput { occurred_at: "2026-09-08 00:00".to_string(), ..event };
    assert!(validate_hook_event(&bad).is_err());
}

#[test]
fn doctor_reports_database_and_record_checks() {
    let records = vec![
        ObservedRecord { session_id: "s1".to_string(), record_path: "/gone".to_string(), exists: false },
        ObservedRecord { session_id: "s2".to_string(), record_path: "/here".to_string(), exists: true },
    ];
    let checks = doctor_checks(8, "ok".to_string(), 0, &records);
    assert_eq!(checks.len(), 4);
    let codes: Vec<&str> = checks.iter().map(|c| c.code()).collect();
    assert_eq!(codes, ["SCHEMA_VERSION", "SQLITE_QUICK_CHECK", "FOREIGN_KEY_CHECK", "RECORD_PATH_REFERENCES"]);
    assert!(matches!(checks[0], DoctorCheck::SchemaVersion { version: 8 }));
    assert!(matches!(checks[1], DoctorCheck::QuickCheck { status: CheckStatus::Passed, .. }));
    assert!(matches!(checks[2], DoctorCheck::ForeignKeys { status: CheckStatus::Passed, violations: 0 }));
    match &checks[3] {
        DoctorCheck::RecordPaths { status, registered, missing } => {
            assert_eq!(status.as_str(), "warning");
            assert_eq!(*registered, 2);
            assert_eq!(missing.len(), 1);
            assert_eq!((missing[0].session_id.as_str(), missing[0].record_path.as_str()), ("s1", "/gone"));
        }
        other => panic!("{other:?}"),
    }
    let bad = doctor_checks(8, "row 3 missing".to_string(), 2, &vec![]);
    assert!(matches!(bad[1], DoctorCheck::QuickCheck { status: CheckStatus::Error, .. }));
    assert!(matches!(bad[2], DoctorCheck::ForeignKeys { status: CheckStatus::Error, violations: 2 }));
    assert!(matches!(bad[3], DoctorCheck::RecordPaths { status: CheckStatus::Passed, registered: 0, .. }));
    assert_eq!(CheckStatus::Passed.as_str(), "ok");
    assert_eq!(CheckStatus::Error.as_str(), "error");
}

#[test]
fn permission_warnings_report_open_modes_in_octal() {
    assert_eq!(
        database_storage_files("/data/steward.db"),
        vec!["/data/steward.db".to_string(), "/data/steward.db-wal".to_string(), "/data/steward.db-shm".to_string()]
    );
    assert!(mode_warning("/data", 0o40700, ModeTarget::ParentDirectory).is_none());
    let warning = mode_warning("/data", 0o40755, ModeTarget::ParentDirectory).unwrap();
    assert_eq!(warning.code, "INSECURE_DATABASE_PERMISSIONS");
    assert_eq!(warning.message, "the database parent directory is accessible to other users");
    match warning.details {
        WarningDetails::Mode { path, mode } => assert_eq!((path.as_str(), mode.as_str()), ("/data", "0755")),
        other => panic!("{other:?}"),
    }
    let file = mode_warning("/data/steward.db", 0o100604, ModeTarget::StorageFile).unwrap();
    assert_eq!(file.message, "the database file or sidecar is accessible to other users");
    assert!(matches!(file.details, WarningDetails::Mode { ref mode, .. } if mode == "0604"));
    let check = permission_check_warning("/data", "cannot read metadata");
    assert_eq!(check.message, "taskctl could not verify the database permissions");
    assert!(matches!(check.details, WarningDetails::Reason { ref reason, .. } if reason == "cannot read metadata"));
    let custom = custom_database_warning(None);
    assert_eq!(custom.message, "the custom database parent directory is not managed by taskctl");
    assert!(matches!(custom.details, WarningDetails::Custom { path: None, .. }));
}

#[test]
fn errors_carry_codes_details_and_exit_codes() {
    let busy = AppError::from_sqlite(SqliteFailure::Busy);
    assert_eq!((busy.body.code.as_str(), busy.body.retryable, busy.exit_code), ("DATABASE_BUSY", true, 4));
    let constraint = AppError::from_sqlite(SqliteFailure::Constraint { message: None, failure: "UNIQUE".to_string() });
    assert!(matches!(constraint.body.details, ErrorDetails::Constraint { ref constraint } if constraint == "UNIQUE"));
    let other = AppError::from_sqlite(SqliteFailure::Other { text: "disk I/O error".to_string() });
    assert_eq!((other.body.code.as_str(), other.exit_code), ("DATABASE_UNAVAILABLE", 10));
    let schema = AppError::from_storage(StorageFailure::UnsupportedSchema { database_version: 7, supported_version: 8 });
    assert_eq!((schema.body.code.as_str(), schema.exit_code), ("UNSUPPORTED_SCHEMA_VERSION", 2));
    let io = AppError::from_storage(StorageFailure::Io { reason: "denied".to_string() });
    assert_eq!(io.body.message, "database path is unavailable");
    let path = AppError::from_path(PathError::PathIdentity("gone".to_string()), Some("/x"));
    assert_eq!((path.body.code.as_str(), path.exit_code), ("PATH_IDENTITY_UNKNOWN", 5));
    assert!(matches!(path.body.details, ErrorDetails::Path { input_path: Some(ref p), ref reason } if p == "/x" && reason == "gone"));
    let fs = AppError::from_path(PathError::Io("denied".to_string()), None);
    assert_eq!(fs.body.code.as_str(), "FILESYSTEM_UNAVAILABLE");
    let missing = AppError::not_found("Task", "#9");
    assert_eq!(missing.body.message, "Task was not found");
    let session = AppError::session(Some("s1"), "s2");
    assert_eq!((session.body.code.as_str(), session.exit_code), ("SESSION_CONFLICT", 4));
}

#[test]
fn a_service_keeps_its_database_path() {
    let service = Service::new("/data/steward.db");
    assert_eq!(service.database_path(), "/data/steward.db");
}

#[test]
fn doctor_retains_database_and_record_diagnostics_without_git_checks() {
    let temp = tempfile::tempdir().unwrap();
    let missing = temp.path().join("missing-session-record.json");
    let records = vec![ObservedRecord {
        session_id: "record".to_string(),
        record_path: missing.to_str().unwrap().to_string(),
        exists: missing.exists(),
    }];
    let checks = doctor_checks(8, "ok".to_string(), 0, &records);
    let codes: Vec<&str> = checks.iter().map(|c| c.code()).collect();
    assert_eq!(codes, ["SCHEMA_VERSION", "SQLITE_QUICK_CHECK", "FOREIGN_KEY_CHECK", "RECORD_PATH_REFERENCES"]);
    assert!(matches!(&checks[1], DoctorCheck::QuickCheck { status: CheckStatus::Passed, .. }));
    assert!(matches!(&checks[2], DoctorCheck::ForeignKeys { status: CheckStatus::Passed, .. }));
    match &checks[3] {
        DoctorCheck::RecordPaths { status, missing, .. } => {
            assert_eq!(status.as_str(), "warning");
            assert_eq!(missing[0].session_id, "record");
        }
        other => panic!("{other:?}"),
    }
}

fn evidence_report(first: &str, second: &str) -> String {
    format!(
        "{{\"protocolVersion\":1,\"binding\":{{\"host\":\"fixture\",\"hostVersion\":\"1\",\"instanceId\":\"instance\",\"sessionId\":\"session\",\"scopeSha256\":\"{}\"}},\"observedAtMs\":1000,\"expiresAtMs\":2000,\"rules\":[{first},{second}],\"tools\":[]}}",
        "a".repeat(64)
    )
}

#[test]
fn matching_files_are_not_host_authentication_or_reuse_permission() {
    let present = format!(
        "{{\"path\":\"/fixture/AGENTS.md\",\"sha256\":\"{}\",\"objectSha256\":\"{}\"}}",
        sha256_hex(b"fixture rule"),
        "b".repeat(64)
    );
    let missing = "{\"path\":\"/fixture/missing.md\",\"sha256\":null,\"objectSha256\":null}".to_string();
    let report = evidence_report(&present, &missing);
    let out = assessment(report.as_bytes(), &vec![true, false], 0);
    assert_eq!(out.checked_rule_files, 1);
    assert_eq!(out.checked_missing_paths, 1);
    assert!(!out.host_claim_verified && !out.reuse_allowed);
    let reordered = evidence_report(&missing, &present);
    assert_ne!(out.report_sha256, assessment(reordered.as_bytes(), &vec![false, true], 0).report_sha256);
    assert!(!out.report_sha256.contains("fixture rule") && !out.report_sha256.contains("AGENTS.md"));
    assert!(check_evidence_clock(1500, 1500).is_ok());
}

#[test]
fn business_status_does_not_gate_a_current_session_binding() {
    let mut req = request();
    let mut current = TaskStatus::Todo;
    for status in ["backlog", "todo", "in_progress", "in_review", "blocked", "done", "cancelled"] {
        let requested = parse_status(status).unwrap();
        req.task_version = match plan_status_change(current, req.task_version, req.task_version, requested).unwrap() {
            StatusChange::Unchanged => req.task_version,
            StatusChange::Changed { version, .. } => version,
        };
        current = requested;
        let snapshot = TaskState { version: req.task_version, ..task() };
        assert!(check_host_snapshot(&req, &snapshot, Some(1), &session(1, false)).is_ok(), "{status}");
    }
}

#[test]
fn task_versions_sessions_and_projects_cannot_replay_reports() {
    let mut req = request();
    req.session_id = "other";
    assert!(check_host_snapshot(&req, &task(), Some(1), &session(1, false)).is_err());
    req.session_id = "s1";
    req.task_version = 2;
    assert_eq!(
        check_host_snapshot(&req, &task(), Some(1), &session(1, false)).unwrap_err().body.code.as_str(),
        "VERSION_CONFLICT"
    );
    let second = TaskState { id: 2, version: 2, current_session_id: Some("s2".to_string()) };
    let s2 = SessionState { id: "s2".to_string(), ..session(2, false) };
    let req2 = HostContextRequest { task: "#2", task_version: 2, session_id: "s2", source_id: 1 };
    assert!(check_host_snapshot(&req2, &second, None, &s2).is_err());
    let in_project = TaskState { version: 3, ..second.clone() };
    let req3 = HostContextRequest { task_version: 3, ..req2.clone() };
    assert_eq!(check_host_snapshot(&req3, &in_project, Some(1), &s2).unwrap(), 1);
    assert!(check_reread(Reread::Binding, false).is_err());
    let closed = TaskState { id: 2, version: 4, current_session_id: None };
    let req4 = HostContextRequest { task_version: 4, ..req2 };
    assert!(check_host_snapshot(&req4, &closed, Some(1), &SessionState { ended: true, ..s2 }).is_err());
}

#[test]
fn selected_components_and_source_registration_are_bound() {
    let backend: i64 = 2;
    let frontend: i64 = 1;
    assert!(check_source_component(None, &vec![]).is_ok());
    assert!(check_source_component(Some(backend), &vec![]).is_ok());
    assert!(check_reread(Reread::Source, false).is_err());
    assert!(check_source_component(Some(backend), &vec![frontend]).is_err());
    assert!(check_source_component(None, &vec![frontend]).is_ok());
}

#[test]
fn task_and_registration_changes_during_assessment_are_rejected() {
    for task_change in [false, true] {
        if task_change {
            let changed = TaskState { version: 4, ..task() };
            assert_eq!(
                check_host_snapshot(&request(), &changed, Some(1), &session(1, false))
                    .unwrap_err()
                    .body
                    .code
                    .as_str(),
                "VERSION_CONFLICT"
            );
            assert!(check_reread(Reread::Snapshot, false).is_err());
        } else {
            assert!(check_reread(Reread::Source, false).is_err());
        }
    }
}

#[test]
fn expiry_and_clock_reversal_during_final_context_recheck_fail_closed() {
    let observed: u64 = 1_000;
    assert!(check_context_clock(observed + 1, observed).is_err());
    assert!(check_context_clock(observed + 1, observed + 1).is_ok());
}

#[test]
fn assessment_counts_are_the_reports_rules() {
    let none = assessment(b"{}", &vec![], 0);
    assert_eq!((none.checked_rule_files, none.checked_missing_paths), (0, 0));
    let all = assessment(b"{}", &vec![false, false, true, false], 2);
    assert_eq!((all.checked_rule_files, all.checked_missing_paths, all.reported_tools), (1, 3, 2));
}

fn observation(path: &str, first: u64) -> ExistingPathIdentityRecord {
    ExistingPathIdentityRecord { canonical_path: path.to_string(), object: FileObjectId { first, second: 7 } }
}

#[test]
fn evidence_passes_observe_each_rule_twice_in_order() {
    let mut passes = EvidencePasses::new(2);
    let mut seen = Vec::new();
    while let EvidenceStep::Observe(index) = passes.next() {
        seen.push(index);
        passes.count_bytes(10).unwrap();
        passes.record(RuleCheck::Present, observation(&format!("/rules/{index}"), index as u64)).unwrap();
    }
    assert_eq!(seen, vec![0, 1, 0, 1]);
    assert_eq!(passes.next(), EvidenceStep::Finish);
    assert_eq!(EvidencePasses::new(0).next(), EvidenceStep::Finish);
}

#[test]
fn evidence_passes_refuse_a_second_observation_that_differs() {
    let mut passes = EvidencePasses::new(2);
    passes.record(RuleCheck::Present, observation("/rules/a", 1)).unwrap();
    passes.record(RuleCheck::Missing, observation("/rules", 2)).unwrap();
    passes.record(RuleCheck::Present, observation("/rules/a", 1)).unwrap();
    let error = passes.record(RuleCheck::Missing, observation("/rules", 3)).unwrap_err();
    assert_eq!(error.body.code, ErrorCode::InvalidInput);
    match &error.body.details {
        ErrorDetails::Invalid { field, reason } => {
            assert_eq!(field, "hostEvidence");
            assert_eq!(reason, "missing rule ancestor changed between passes");
        }
        other => panic!("unexpected details {other:?}"),
    }
    let mut passes = EvidencePasses::new(1);
    passes.record(RuleCheck::Present, observation("/rules/a", 1)).unwrap();
    let error = passes.record(RuleCheck::Present, observation("/rules/b", 1)).unwrap_err();
    assert!(matches!(&error.body.details, ErrorDetails::Invalid { reason, .. } if reason == "rule object changed between passes"));
}

#[test]
fn evidence_passes_count_bytes_per_pass() {
    let mut passes = EvidencePasses::new(1);
    passes.count_bytes(RULE_FILE_LIMIT).unwrap();
    assert!(passes.count_bytes(RULE_FILE_LIMIT + 1).is_err());
    passes.record(RuleCheck::Present, observation("/rules/a", 1)).unwrap();
    // The second pass starts again from zero.
    for _ in 0..(RULE_PASS_LIMIT / RULE_FILE_LIMIT) {
        passes.count_bytes(RULE_FILE_LIMIT).unwrap();
    }
    let error = passes.count_bytes(1).unwrap_err();
    assert!(matches!(&error.body.details, ErrorDetails::Invalid { reason, .. } if reason == "rule input exceeds 256 KiB/file or 4 MiB/pass"));
}
