use steward_application::error::{AppError, ErrorCode, ErrorDetails};
use steward_application::hooks::{event_fingerprint, HookEventInput};
use steward_application::path_safety::{local_database_path, ExistingPathIdentityRecord, FileObjectId};
use steward_application::migration::{
    check_columns, check_confirmed, check_destination_free, check_empty_table,
    check_high_water, check_high_water_complete, check_import_digest, check_integrity,
    check_legacy_key, check_legacy_layout, check_persisted_identity, check_private_parent, check_legacy_sequence, check_legacy_versions,
    check_migrated_key, check_migrated_session, check_migrated_task, check_schema_version,
    check_source_sidecar, check_source_unchanged, check_stored_observation, copy_order,
    copy_statements, destination_files, high_water_field, legacy_copy_columns, preflight_probe,
    push_row, schema_plan, check_legacy_tasks, check_snapshot_version, check_schema_layout,
    check_snapshot_import_sizes, SchemaEntry, LegacyTask, source_sidecars, DatabasePresence, EmptyTable, FileProbe,
    StoredObservation, StoredValue, SCHEMA_VERSION,
};

fn invalid(error: &AppError) -> (String, String) {
    assert_eq!(error.body.code, ErrorCode::InvalidInput);
    match &error.body.details {
        ErrorDetails::Invalid { field, reason } => (field.clone(), reason.clone()),
        other => panic!("unexpected details {other:?}"),
    }
}

fn refused(error: &AppError) -> String {
    let (field, reason) = invalid(error);
    assert_eq!(field, "source");
    reason
}

fn strings(items: &[&str]) -> Vec<String> {
    items.iter().map(|s| s.to_string()).collect()
}

#[test]
fn imports_need_confirmation() {
    assert!(check_confirmed(true).is_ok());
    assert_eq!(
        invalid(&check_confirmed(false).unwrap_err()),
        ("yes".to_string(), "explicit --yes confirmation is required".to_string())
    );
}

#[test]
fn legacy_archives_have_the_v7_layout_and_chain() {
    let tables = strings(&[
        "checkpoints",
        "history",
        "schema_migrations",
        "session_imports",
        "sessions",
        "task_notes",
        "tasks",
    ]);
    assert!(check_legacy_layout(0, &tables).is_ok());
    assert_eq!(refused(&check_legacy_layout(1, &tables).unwrap_err()), "only the legacy schema_migrations v7 archive is supported");
    assert!(check_legacy_layout(0, &tables[1..].to_vec()).is_err());
    assert!(check_legacy_versions(&vec![1, 2, 3, 4, 5, 6, 7]).is_ok());
    for versions in [vec![1, 2, 3, 4, 5, 6], vec![1, 2, 3, 4, 5, 6, 8], vec![2, 1, 3, 4, 5, 6, 7], vec![]] {
        assert_eq!(refused(&check_legacy_versions(&versions).unwrap_err()), "expected the complete legacy v1 through v7 migration chain");
    }
}

#[test]
fn integrity_needs_exactly_ok_and_no_foreign_key_violation() {
    assert!(check_integrity(&strings(&["ok"]), false).is_ok());
    assert_eq!(refused(&check_integrity(&strings(&["ok", "ok"]), false).unwrap_err()), "database integrity check failed");
    assert_eq!(refused(&check_integrity(&strings(&["row 1 missing"]), false).unwrap_err()), "database integrity check failed");
    assert_eq!(refused(&check_integrity(&strings(&["ok"]), true).unwrap_err()), "database contains foreign key violations");
}

#[test]
fn legacy_keys_with_reference_syntax_need_a_mapping() {
    assert!(check_legacy_key("ALPHA-1").is_ok());
    for key in [" padded", "", "#1", "key:1", "123"] {
        assert_eq!(
            refused(&check_legacy_key(key).unwrap_err()),
            "legacy taskKey has ambiguous reference syntax; explicit mapping is required",
            "{key}"
        );
    }
}

#[test]
fn legacy_columns_drop_only_the_retired_and_new_task_fields() {
    let current = strings(&["id", "title", "project_id", "status"]);
    let old = strings(&["id", "title", "worktree_path_key", "status"]);
    assert_eq!(legacy_copy_columns("tasks", &current, &old).unwrap(), strings(&["id", "title", "status"]));
    assert_eq!(refused(&legacy_copy_columns("sessions", &current, &old).unwrap_err()), "legacy table columns do not match the supported v7 layout");
    assert_eq!(legacy_copy_columns("sessions", &strings(&["id"]), &strings(&["id"])).unwrap(), strings(&["id"]));
    assert!(check_legacy_sequence(5, 5).is_ok());
    assert_eq!(refused(&check_legacy_sequence(4, 5).unwrap_err()), "invalid legacy autoincrement high-water mark");
}

#[test]
fn migrated_records_keep_identity_keys_and_sessions() {
    assert!(check_migrated_task(1, false, false, false).is_ok());
    assert!(check_migrated_task(1, true, true, true).is_ok());
    for (id, allow, project, components) in [(0, true, false, false), (1, false, true, false), (1, false, false, true)] {
        assert_eq!(refused(&check_migrated_task(id, allow, project, components).unwrap_err()), "invalid task identity or project membership");
    }
    assert!(check_migrated_key("key:literal", 1, 1).is_ok());
    for (key, resolved) in [(" key", 1), ("#1", 1), ("12", 1), ("KEY", 2)] {
        assert_eq!(refused(&check_migrated_key(key, resolved, 1).unwrap_err()), "ambiguous task key");
    }
    assert!(check_migrated_session(false).is_ok());
    assert_eq!(refused(&check_migrated_session(true).unwrap_err()), "current session has ended");
    let digest = "47ffa3ea45a70b8a41c2c0825df323c00a8b7a01c1ea06083cc41dddcc001123";
    assert!(check_import_digest(&[0, 255, 1], digest).is_ok());
    assert_eq!(refused(&check_import_digest(&[0, 255, 2], digest).unwrap_err()), "invalid import digest");
}

fn observation() -> StoredObservation {
    StoredObservation {
        session_id: "s1".to_string(),
        source: "generic".to_string(),
        external_session_id: "external".to_string(),
        event_id: "visible".to_string(),
        kind: Some("idle".to_string()),
        occurred_at: "2026-09-08T00:00:00Z".to_string(),
        fingerprint: String::new(),
        received_at: "2026-09-08T00:00:01Z".to_string(),
    }
}

fn fingerprinted() -> StoredObservation {
    let event = HookEventInput {
        schema_version: 1,
        session_id: "s1".to_string(),
        source: "generic".to_string(),
        external_session_id: "external".to_string(),
        event_id: "visible".to_string(),
        kind: "idle".to_string(),
        occurred_at: "2026-09-08T00:00:00.000000000Z".to_string(),
    };
    StoredObservation { fingerprint: event_fingerprint(&event), ..observation() }
}

#[test]
fn stored_observations_must_match_their_fingerprints() {
    assert!(check_stored_observation(&fingerprinted()).is_ok());
    let cleared = StoredObservation { kind: None, fingerprint: "a".repeat(64), ..observation() };
    assert!(check_stored_observation(&cleared).is_ok());
    let cases = [
        (StoredObservation { session_id: "".to_string(), ..fingerprinted() }, "invalid Hook identifier"),
        (StoredObservation { source: "s".repeat(33), ..fingerprinted() }, "invalid Hook identifier"),
        (StoredObservation { event_id: "a/b".to_string(), ..fingerprinted() }, "invalid Hook identifier"),
        (StoredObservation { fingerprint: "A".repeat(64), ..fingerprinted() }, "invalid Hook fingerprint"),
        (StoredObservation { fingerprint: "a".repeat(63), ..fingerprinted() }, "invalid Hook fingerprint"),
        (StoredObservation { received_at: "later".to_string(), ..fingerprinted() }, "invalid Hook time"),
        (StoredObservation { occurred_at: "2026-09-08".to_string(), ..fingerprinted() }, "invalid Hook time"),
        (StoredObservation { kind: Some("closed".to_string()), ..fingerprinted() }, "Hook fingerprint mismatch"),
    ];
    for (candidate, reason) in cases {
        assert_eq!(refused(&check_stored_observation(&candidate).unwrap_err()), reason);
    }
}

#[test]
fn schema_plans_name_tables_sequences_and_empty_tables() {
    let two = schema_plan(2).unwrap();
    assert_eq!(two.tables, strings(&["tasks", "sessions", "checkpoints", "task_notes", "history", "session_imports", "session_events"]));
    assert_eq!(two.sequences.len(), 4);
    assert_eq!(two.empty_tables.len(), 7);
    let four = schema_plan(4).unwrap();
    assert_eq!(four.tables.len(), 13);
    assert_eq!(four.sequences.len(), 9);
    assert_eq!(four.empty_tables, strings(&["project_profiles"]));
    for version in [5, 6] {
        let plan = schema_plan(version).unwrap();
        assert_eq!(plan.tables.len(), 14);
        assert_eq!(plan.tables.last().map(String::as_str), Some("project_profiles"));
        assert!(plan.empty_tables.is_empty());
    }
    for version in [1, 3, 7, 8] {
        assert_eq!(refused(&schema_plan(version).unwrap_err()), "unsupported source schema");
    }
}

#[test]
fn columns_and_copy_statements_follow_the_plan() {
    let target = strings(&["id", "project_id", "title"]);
    assert!(check_columns(2, "tasks", &strings(&["id", "title"]), &target).is_ok());
    assert_eq!(refused(&check_columns(4, "tasks", &strings(&["id", "title"]), &target).unwrap_err()), "source and target columns are incompatible");
    assert!(check_columns(4, "tasks", &target, &target).is_ok());
    assert_eq!(copy_order("task_components"), "1,3");
    assert_eq!(copy_order("tasks"), "1");
    let (select, insert) = copy_statements("tasks", &strings(&["id", "title"]), "1");
    assert_eq!(select, "SELECT id,title FROM tasks ORDER BY 1");
    assert_eq!(insert, "INSERT INTO tasks (id,title) VALUES (?,?)");
    let (select, insert) = copy_statements("t", &strings(&["a"]), "id");
    assert_eq!(select, "SELECT a FROM t ORDER BY id");
    assert_eq!(insert, "INSERT INTO t (a) VALUES (?)");
}

#[test]
fn rows_are_encoded_with_typed_length_delimited_values() {
    let mut out = Vec::new();
    push_row(
        &mut out,
        &vec![
            StoredValue::Null,
            StoredValue::Integer(-2),
            StoredValue::Real(1.5f64.to_bits()),
            StoredValue::Text("é".to_string()),
            StoredValue::Blob(vec![9]),
        ],
    );
    let mut expected = vec![b'R', b'N', b'I'];
    expected.extend_from_slice(&(-2i64).to_le_bytes());
    expected.push(b'F');
    expected.extend_from_slice(&1.5f64.to_bits().to_le_bytes());
    expected.push(b'T');
    expected.extend_from_slice(&2u64.to_le_bytes());
    expected.extend_from_slice("é".as_bytes());
    expected.push(b'B');
    expected.extend_from_slice(&1u64.to_le_bytes());
    expected.push(9);
    assert_eq!(out, expected);
    let mut empty = Vec::new();
    push_row(&mut empty, &vec![]);
    assert_eq!(empty, vec![b'R']);
}

fn table_bytes(rows: &[Vec<StoredValue>]) -> Vec<u8> {
    let mut out = Vec::new();
    for row in rows {
        push_row(&mut out, row);
    }
    out
}

#[test]
fn different_tables_never_share_their_row_encoding() {
    let text = |s: &str| StoredValue::Text(s.to_string());
    let one = table_bytes(&[vec![text("ab")]]);
    let split = table_bytes(&[vec![text("a"), text("b")]]);
    let rows = table_bytes(&[vec![text("a")], vec![text("b")]]);
    assert_ne!(one, split);
    assert_ne!(split, rows);
    assert_ne!(one, rows);
    assert_ne!(table_bytes(&[vec![StoredValue::Integer(1)]]), table_bytes(&[vec![StoredValue::Real(1)]]));
    assert_ne!(table_bytes(&[vec![text("x")]]), table_bytes(&[vec![StoredValue::Blob(b"x".to_vec())]]));
    assert_eq!(table_bytes(&[vec![text("a")], vec![]]), table_bytes(&[vec![text("a")], vec![]]));
    assert_ne!(table_bytes(&[vec![], vec![]]), table_bytes(&[vec![]]));
}

#[test]
fn high_water_marks_are_known_unique_sufficient_and_complete() {
    let sequences = vec![("tasks".to_string(), "id".to_string()), ("session_events".to_string(), "sequence".to_string())];
    assert_eq!(high_water_field(&sequences, &vec![], "session_events").unwrap(), "sequence");
    assert_eq!(refused(&high_water_field(&sequences, &vec![], "rules").unwrap_err()), "unknown autoincrement high-water mark");
    assert_eq!(refused(&high_water_field(&sequences, &strings(&["tasks"]), "tasks").unwrap_err()), "duplicate autoincrement high-water mark");
    assert!(check_high_water(5, 5).is_ok());
    for (seq, max) in [(4, 5), (-1, -3)] {
        assert_eq!(refused(&check_high_water(seq, max).unwrap_err()), "invalid autoincrement high-water mark");
    }
    let copied = vec![("tasks".to_string(), 3u64), ("session_events".to_string(), 0u64)];
    assert!(check_high_water_complete(&sequences, &copied, &strings(&["tasks"])).is_ok());
    assert_eq!(refused(&check_high_water_complete(&sequences, &copied, &vec![]).unwrap_err()), "missing autoincrement high-water mark");
}

#[test]
fn copies_keep_new_tables_empty_and_the_source_unchanged() {
    assert!(check_empty_table(EmptyTable::Rule, 0).is_ok());
    assert_eq!(refused(&check_empty_table(EmptyTable::Rule, 1).unwrap_err()), "new rule tables must be empty");
    assert_eq!(refused(&check_empty_table(EmptyTable::Project, 2).unwrap_err()), "project metadata must remain empty");
    assert!(check_source_unchanged(4, 4).is_ok());
    assert_eq!(refused(&check_source_unchanged(4, 5).unwrap_err()), "source changed during copy; stop writers and take a new snapshot");
}

#[test]
fn destinations_and_sidecars_are_probed_without_replacing_anything() {
    assert_eq!(
        destination_files("/d/new.db"),
        strings(&["/d/new.db", "/d/new.db-wal", "/d/new.db-shm", "/d/new.db-journal"])
    );
    assert_eq!(source_sidecars("/s/old.db"), strings(&["/s/old.db-wal", "/s/old.db-shm", "/s/old.db-journal"]));
    assert!(check_destination_free(FileProbe::Absent).is_ok());
    for probe in [FileProbe::Regular, FileProbe::Other] {
        assert_eq!(
            invalid(&check_destination_free(probe).unwrap_err()),
            ("database".to_string(), "destination and SQLite sidecars must not exist; merge/overwrite is forbidden".to_string())
        );
    }
    let failed = check_destination_free(FileProbe::Failed("denied".to_string())).unwrap_err();
    assert_eq!((failed.body.code.as_str(), failed.exit_code), ("DATABASE_UNAVAILABLE", 10));
    assert!(check_source_sidecar(FileProbe::Absent).is_ok());
    assert!(check_source_sidecar(FileProbe::Regular).is_ok());
    assert_eq!(refused(&check_source_sidecar(FileProbe::Other).unwrap_err()), "source sidecars must be regular files, not links or directories");
}

#[test]
fn preflight_accepts_only_this_schema() {
    assert_eq!(SCHEMA_VERSION, 8);
    assert!(matches!(preflight_probe(FileProbe::Absent).unwrap(), DatabasePresence::Absent));
    assert!(matches!(preflight_probe(FileProbe::Regular).unwrap(), DatabasePresence::Present));
    assert_eq!(invalid(&preflight_probe(FileProbe::Other).unwrap_err()).1, "expected a regular database file, not a link or directory");
    assert_eq!(check_schema_version(8).unwrap(), 8);
    assert_eq!(
        invalid(&check_schema_version(7).unwrap_err()),
        ("database".to_string(), "database schema 7 does not match binary schema 8; use a separately backed-up migration, not automatic update".to_string())
    );
    assert_eq!(
        invalid(&check_schema_version(-12).unwrap_err()).1,
        "database schema -12 does not match binary schema 8; use a separately backed-up migration, not automatic update"
    );
}

#[test]
fn destination_parents_must_be_private_directories() {
    assert!(check_private_parent(true, true, 0o40700).is_ok());
    assert_eq!(
        invalid(&check_private_parent(false, true, 0o40700).unwrap_err()),
        ("database".to_string(), "destination requires a dedicated private parent directory".to_string())
    );
    for (owned, mode) in [(false, 0o40700), (true, 0o40750), (true, 0o40701)] {
        assert_eq!(
            invalid(&check_private_parent(true, owned, mode).unwrap_err()).1,
            "destination parent must be private and belong to the current user"
        );
    }
}

#[test]
fn persisted_identities_name_their_own_path() {
    let record = ExistingPathIdentityRecord {
        canonical_path: "/srv/source".to_string(),
        object: FileObjectId { first: 1, second: 2 },
    };
    assert!(check_persisted_identity("/srv/source", &record).is_ok());
    assert_eq!(refused(&check_persisted_identity("/srv/other", &record).unwrap_err()), "source path differs from persisted identity");
}

fn destination_is_free(target: &str, occupied: &[&str]) -> bool {
    destination_files(target).iter().all(|f| {
        let probe = if occupied.contains(&f.as_str()) { FileProbe::Regular } else { FileProbe::Absent };
        check_destination_free(probe).is_ok()
    })
}

#[test]
fn schema2_requires_confirmation_local_paths_and_an_absent_target() {
    let temp = tempfile::tempdir().unwrap();
    let source = temp.path().join("source.db");
    let source = source.to_str().unwrap();
    let target = temp.path().join("new.db");
    assert!(check_confirmed(false).is_err());
    assert!(!target.exists());
    assert!(destination_is_free(target.to_str().unwrap(), &[source]));
    assert!(!destination_is_free(source, &[source]));
    for path in ["relative", r"\\untrusted.invalid\share\db", r"\\.\PIPE\db"] {
        assert!(local_database_path(path, false).is_err());
        assert!(local_database_path(path, true).is_err());
    }
    for suffix in ["", "-wal", "-shm", "-journal"] {
        let target = temp.path().join(format!("target-{suffix}.db"));
        let occupied = format!("{}{suffix}", target.display());
        assert!(!destination_is_free(target.to_str().unwrap(), &[occupied.as_str()]));
    }
}

#[test]
fn schema2_refuses_nonprivate_parent_and_nonfile_source_sidecars() {
    assert!(check_private_parent(true, true, 0o755).is_err());
    assert!(check_private_parent(true, true, 0o700).is_ok());
    let sidecars = source_sidecars("/private/source.db");
    assert_eq!(sidecars.len(), 3);
    for _ in &sidecars {
        assert!(check_source_sidecar(FileProbe::Other).is_err());
        assert!(check_source_sidecar(FileProbe::Absent).is_ok());
    }
}

#[test]
fn snapshots_must_hold_the_requested_schema_and_archives_only_finished_tasks() {
    assert!(check_snapshot_version(4, 4).is_ok());
    let (field, reason) = invalid(&check_snapshot_version(5, 4).unwrap_err());
    assert_eq!((field.as_str(), reason.as_str()), ("source", "only Schema 4 snapshots are supported"));
    let closed = LegacyTask { status: "closed".to_string(), has_current_session: false, has_worktree_binding: false };
    assert!(check_legacy_tasks(&vec![closed.clone(), closed.clone()]).is_ok());
    assert!(check_legacy_tasks(&vec![]).is_ok());
    for bad in [
        LegacyTask { status: "open".to_string(), ..closed.clone() },
        LegacyTask { has_current_session: true, ..closed.clone() },
        LegacyTask { has_worktree_binding: true, ..closed.clone() },
    ] {
        let (field, reason) = invalid(&check_legacy_tasks(&vec![closed.clone(), bad]).unwrap_err());
        assert_eq!(field, "source");
        assert_eq!(reason, "this archive importer requires closed tasks without Worktree bindings");
    }
}

fn entry(kind: &str, name: &str, sql: Option<&str>) -> SchemaEntry {
    SchemaEntry { kind: kind.to_string(), name: name.to_string(), table: "tasks".to_string(), sql: sql.map(str::to_string) }
}

#[test]
fn a_snapshot_layout_must_match_the_supported_definition() {
    let expected = vec![
        entry("table", "tasks", Some("CREATE TABLE tasks(id INTEGER PRIMARY KEY)")),
        entry("index", "sqlite_autoindex_tasks_1", None),
    ];
    assert!(check_schema_layout(&expected.clone(), &expected, 2).is_ok());
    let refusal = "Schema 2 layout differs from the supported definition".to_string();
    let mut changed_sql = expected.clone();
    changed_sql[0].sql = Some("CREATE TABLE tasks(id INTEGER PRIMARY KEY, x)".to_string());
    let mut missing_sql = expected.clone();
    missing_sql[0].sql = None;
    let mut renamed = expected.clone();
    renamed[1].name = "tasks_index".to_string();
    let shorter = vec![expected[0].clone()];
    for snapshot in [changed_sql, missing_sql, renamed, shorter, Vec::new()] {
        let error = check_schema_layout(&snapshot, &expected, 2).unwrap_err();
        assert_eq!(invalid(&error), ("source".to_string(), refusal.clone()));
    }
    let error = check_schema_layout(&Vec::new(), &expected, 3).unwrap_err();
    assert_eq!(invalid(&error).1, "Schema 3 layout differs from the supported definition");
}

#[test]
fn snapshot_session_imports_keep_the_session_import_bound() {
    assert!(check_snapshot_import_sizes(None).is_ok());
    assert!(check_snapshot_import_sizes(Some(0)).is_ok());
    assert!(check_snapshot_import_sizes(Some(16_777_216)).is_ok());
    let error = check_snapshot_import_sizes(Some(16_777_217)).unwrap_err();
    assert_eq!(invalid(&error), ("source".to_string(), "session import exceeds the supported size".to_string()));
}
