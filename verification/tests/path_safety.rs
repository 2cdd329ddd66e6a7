use steward_application::error::{AppError, ErrorCode, ErrorDetails, PathError};
use steward_application::path_safety::{
    canonicalize_target, local_database_file_path, local_database_path, local_path,
    local_path_windows, paths_equivalent, verify_same_identity, ExistingPathIdentityRecord,
    FileObjectId,
};

const LOCAL_REASON: &str = "expected a local absolute path without parent traversal";

fn invalid(error: &AppError) -> (String, String) {
    assert_eq!(error.body.code, ErrorCode::InvalidInput);
    assert_eq!(error.exit_code, 2);
    match &error.body.details {
        ErrorDetails::Invalid { field, reason } => (field.clone(), reason.clone()),
        other => panic!("unexpected details {other:?}"),
    }
}

fn identity_reason(error: PathError) -> String {
    match error {
        PathError::PathIdentity(reason) => reason,
        PathError::Io(reason) => panic!("unexpected io error {reason}"),
    }
}

#[test]
fn schema2_rejects_windows_trailing_dot_or_space_in_any_path_component() {
    for root in [r"C:\sandbox", r"\\?\C:\sandbox"] {
        for tail in [".", " ", ". ", ".."] {
            for path in [
                format!(r"{root}\source.db{tail}"),
                format!(r"{root}\parent{tail}\source.db"),
            ] {
                assert!(local_database_path(&path, true).is_err(), "{path}");
            }
        }
        assert!(local_database_path(&format!(r"{root}\目录 with spaces\source.db"), true).is_ok());
    }
}

#[test]
fn local_path_validation_is_lexical_and_rejects_unsafe_inputs() {
    let temp = tempfile::tempdir().unwrap();
    let absent = temp.path().join("not-created/file");
    let absent_text = absent.to_str().unwrap();
    assert!(local_path(absent_text).is_ok());
    assert!(!absent.exists());
    for path in ["relative/file", "//server/share", "/bad\0name"] {
        assert!(local_path(path).is_err());
    }
    let escape = temp.path().join("../escape");
    assert!(local_path(escape.to_str().unwrap()).is_err());
    for path in [
        r"C:\data\file:stream",
        r"\\server\share\file",
        r"\\.\PhysicalDrive0",
        r"\\?\UNC\server\share",
    ] {
        assert!(local_path_windows(path).is_err());
    }
}

#[test]
fn local_path_accepts_absent_absolute_paths_and_normalizes_them() {
    assert_eq!(local_path("/tmp/not-created/file").unwrap(), "/tmp/not-created/file");
    assert_eq!(local_path("/tmp/./a//b/").unwrap(), "/tmp/a/b");
    assert_eq!(local_path("/").unwrap(), "/");
    assert_eq!(local_path("/目录/文件").unwrap(), "/目录/文件");
}

#[test]
fn local_path_refuses_relative_network_nul_and_parent_paths() {
    for path in ["relative/file", "//server/share", "/bad\0name", "/tmp/../escape", "", "/a/.."] {
        assert_eq!(identity_reason(local_path(path).unwrap_err()), LOCAL_REASON, "{path}");
    }
}

#[test]
fn local_path_is_idempotent_on_examples() {
    for path in ["/tmp/./a//b/", "/x", "/", "/a/b/c/."] {
        let once = local_path(path).unwrap();
        assert_eq!(local_path(&once).unwrap(), once);
    }
}

#[test]
fn windows_local_paths_are_drive_paths_only() {
    assert_eq!(local_path_windows(r"c:\data\file").unwrap(), r"C:\data\file");
    assert_eq!(local_path_windows("d:/data/./x").unwrap(), r"D:\data\x");
    assert_eq!(local_path_windows(r"\\?\C:\data\file").unwrap(), r"C:\data\file");
    for path in [
        r"C:\data\file:stream",
        r"\\server\share\file",
        r"\\.\PhysicalDrive0",
        r"\\?\UNC\server\share",
        r"C:relative",
        r"\rooted",
        r"C:\data\..\escape",
        "//server/share",
    ] {
        assert_eq!(identity_reason(local_path_windows(path).unwrap_err()), LOCAL_REASON, "{path}");
    }
}

#[test]
fn windows_trailing_dots_are_kept_by_the_http_validation() {
    assert_eq!(local_path_windows(r"C:\data\name.").unwrap(), r"C:\data\name.");
}

#[test]
fn database_paths_report_their_reasons() {
    let (field, reason) = invalid(&local_database_path("relative.db", false).unwrap_err());
    assert_eq!(field, "database");
    assert_eq!(
        reason,
        "source and destination require local absolute paths without traversal or device/network prefixes"
    );
    let (_, reason) = invalid(&local_database_path(r"C:\a.\b.db", true).unwrap_err());
    assert_eq!(reason, "Windows database paths must not contain components ending in dots or spaces");
    assert!(local_database_path("/a./b.db", false).is_ok());
}

#[test]
fn database_file_paths_need_an_explicit_file_name() {
    assert!(local_database_file_path("/data/steward.db", false).is_ok());
    for path in ["/data/", "/data/.", "/"] {
        let (field, reason) = invalid(&local_database_file_path(path, false).unwrap_err());
        assert_eq!(field, "database");
        assert_eq!(
            reason,
            "database paths must end with an explicit filename, not a separator or dot component",
            "{path}"
        );
    }
    for path in [r"C:\data\", r"C:\data\."] {
        assert!(local_database_file_path(path, true).is_err(), "{path}");
    }
    assert!(local_database_file_path(r"C:\data\steward.db", true).is_ok());
}

#[test]
fn canonical_targets_append_missing_components_in_order() {
    let missing = vec!["missing".to_string(), "file".to_string()];
    assert_eq!(canonicalize_target("/tmp/parent", &missing).unwrap(), "/tmp/parent/missing/file");
    assert_eq!(canonicalize_target("/", &missing).unwrap(), "/missing/file");
    assert_eq!(canonicalize_target("/tmp", &vec![]).unwrap(), "/tmp");
    for bad in ["", ".", ".."] {
        let error = canonicalize_target("/tmp", &vec![bad.to_string()]).unwrap_err();
        assert_eq!(identity_reason(error), "invalid target component");
    }
}

#[test]
fn equivalent_paths_need_equal_spelling_or_the_same_object() {
    let a = FileObjectId { first: 1, second: 2 };
    let b = FileObjectId { first: 1, second: 3 };
    assert!(paths_equivalent("/x", "/x", None, None));
    assert!(paths_equivalent("/x", "/alias", Some(a), Some(a)));
    assert!(!paths_equivalent("/x", "/alias", Some(a), Some(b)));
    assert!(!paths_equivalent("/x", "/alias", Some(a), None));
    assert_eq!(
        paths_equivalent("/alias", "/x", Some(b), Some(a)),
        paths_equivalent("/x", "/alias", Some(a), Some(b))
    );
}

#[test]
fn records_compare_identifiers_and_paths() {
    let record = ExistingPathIdentityRecord {
        canonical_path: "/tmp/source".to_string(),
        object: FileObjectId { first: 7, second: 9 },
    };
    assert!(record.same_object(FileObjectId { first: 7, second: 9 }));
    assert!(!record.same_object(FileObjectId { first: 7, second: 10 }));
    let moved = ExistingPathIdentityRecord {
        canonical_path: "/tmp/old-source".to_string(),
        object: FileObjectId { first: 7, second: 9 },
    };
    assert!(!record.same_record(&moved));
    assert!(record.same_record(&record.clone()));
}

#[test]
fn changed_identity_is_reported_with_its_label() {
    assert!(verify_same_identity("target path", true).is_ok());
    let error = verify_same_identity("target path", false).unwrap_err();
    assert_eq!(identity_reason(error), "target path changed after it was checked");
}
