use steward_application::error::{AppError, ErrorCode, ErrorDetails};
use steward_application::reference::{
    parse_project_reference, parse_task_reference, required, validate_task_key, ProjectReference,
    TaskReference,
};
use steward_application::status::{
    legacy_status, parse_status, parse_status_filter, plan_status_change, StatusChange,
    StatusFilter, TaskStatus,
};
use steward_application::title::validate_task_title;

const STATUSES: [&str; 7] = [
    "backlog",
    "todo",
    "in_progress",
    "in_review",
    "blocked",
    "done",
    "cancelled",
];

fn invalid(error: &AppError) -> (String, String) {
    assert_eq!(error.body.code, ErrorCode::InvalidInput);
    assert_eq!(error.body.code.as_str(), "INVALID_INPUT");
    assert_eq!(error.exit_code, 2);
    assert!(!error.body.retryable);
    match &error.body.details {
        ErrorDetails::Invalid { field, reason } => (field.clone(), reason.clone()),
        other => panic!("unexpected details {other:?}"),
    }
}

#[test]
fn every_state_name_round_trips() {
    for name in STATUSES {
        let status = parse_status(name).unwrap();
        assert_eq!(status.as_str(), name);
        assert_eq!(TaskStatus::parse(name), Some(status));
    }
    for old in ["open", "closed", "pending_release", "Todo", " todo", "active", ""] {
        let (field, reason) = invalid(&parse_status(old).unwrap_err());
        assert_eq!(field, "status");
        assert_eq!(
            reason,
            "expected backlog, todo, in_progress, in_review, blocked, done or cancelled"
        );
    }
}

#[test]
fn all_49_status_pairs_work_without_descriptions_or_sessions() {
    for from in STATUSES {
        for to in STATUSES {
            let created = TaskStatus::Todo;
            let current = parse_status(from).unwrap();
            let requested = parse_status(to).unwrap();
            let version = match plan_status_change(created, 1, 1, current).unwrap() {
                StatusChange::Unchanged => 1,
                StatusChange::Changed { previous, status, version } => {
                    assert_eq!((previous, status), (created, current));
                    version
                }
            };
            assert_eq!(version, if from == "todo" { 1 } else { 2 });
            let plan = plan_status_change(current, version, version, requested).unwrap();
            if from == to {
                assert_eq!(plan, StatusChange::Unchanged, "same status {from} must be no-op");
            } else {
                assert_eq!(
                    plan,
                    StatusChange::Changed { previous: current, status: requested, version: version + 1 },
                    "{from} -> {to}"
                );
            }
            let conflict = plan_status_change(current, version, version - 1, requested).unwrap_err();
            assert_eq!(conflict.body.code.as_str(), "VERSION_CONFLICT");
            assert!(conflict.body.retryable);
            assert_eq!(conflict.exit_code, 4);
            assert!(matches!(
                conflict.body.details,
                ErrorDetails::Version { expected, current } if expected == version - 1 && current == version
            ));
        }
    }
}

#[test]
fn invalid_inputs_and_audit_failure_leave_no_partial_status_write() {
    for status in ["open", "closed", "pending_release", "unknown", "", " done "] {
        let error = parse_status(status).unwrap_err();
        assert_eq!(error.body.code.as_str(), "INVALID_INPUT");
        assert_eq!(invalid(&error).0, "status");
    }
    for status in ["blocked", "done", "cancelled"] {
        let requested = parse_status(status).unwrap();
        assert!(matches!(
            plan_status_change(TaskStatus::Todo, 2, 2, requested).unwrap(),
            StatusChange::Changed { version: 3, .. }
        ));
    }
    assert_eq!(
        plan_status_change(TaskStatus::Todo, 2, 2, parse_status("todo").unwrap()).unwrap(),
        StatusChange::Unchanged
    );
}

#[test]
fn a_change_at_the_largest_version_is_a_constraint_error() {
    let error =
        plan_status_change(TaskStatus::Todo, i64::MAX, i64::MAX, TaskStatus::Done).unwrap_err();
    assert_eq!(error.body.code.as_str(), "CONSTRAINT_VIOLATION");
    assert_eq!(
        plan_status_change(TaskStatus::Todo, i64::MAX, i64::MAX, TaskStatus::Todo).unwrap(),
        StatusChange::Unchanged
    );
}

#[test]
fn status_filters_include_all_nonterminal_states_in_active() {
    let tasks: Vec<TaskStatus> = STATUSES.iter().map(|name| parse_status(name).unwrap()).collect();
    for name in STATUSES {
        let status = parse_status(name).unwrap();
        let only = parse_status_filter(name).unwrap();
        assert_eq!(only, StatusFilter::Only(status));
        assert_eq!(only.states(), vec![status]);
        let listed: Vec<&TaskStatus> = tasks.iter().filter(|t| only.admits(**t)).collect();
        assert_eq!(listed.len(), 1);
        assert_eq!(listed[0].as_str(), name);
    }
    let active = parse_status_filter("active").unwrap();
    assert_eq!(active, StatusFilter::Active);
    let listed: Vec<&TaskStatus> = tasks.iter().filter(|t| active.admits(**t)).collect();
    assert_eq!(listed.len(), 5);
    assert!(listed.iter().all(|t| t.as_str() != "done" && t.as_str() != "cancelled"));
    assert_eq!(active.states().len(), 5);
    for name in STATUSES {
        let status = parse_status(name).unwrap();
        let expected = name != "done" && name != "cancelled";
        assert_eq!(active.states().contains(&status), expected, "{name}");
        assert_eq!(status.is_active(), expected);
    }
    assert_eq!(tasks.len(), 7);
    for old in ["open", "closed", "pending_release"] {
        assert_eq!(invalid(&parse_status_filter(old).unwrap_err()).0, "status");
    }
}

#[test]
fn legacy_states_map_to_the_seven_states() {
    assert_eq!(legacy_status("open", None), Some(TaskStatus::Todo));
    assert_eq!(legacy_status("pending_release", None), Some(TaskStatus::InReview));
    assert_eq!(legacy_status("closed", Some("completed")), Some(TaskStatus::Done));
    assert_eq!(legacy_status("closed", Some("abandoned")), Some(TaskStatus::Cancelled));
    assert_eq!(legacy_status("closed", None), Some(TaskStatus::Cancelled));
    assert_eq!(legacy_status("in_progress", None), Some(TaskStatus::InProgress));
    assert_eq!(legacy_status("blocked", Some("completed")), Some(TaskStatus::Blocked));
    assert_eq!(legacy_status("todo", None), None);
}

#[test]
fn task_references_accept_ids_hash_ids_and_keys() {
    assert!(matches!(parse_task_reference("12").unwrap(), TaskReference::Id(12)));
    assert!(matches!(parse_task_reference(" #12 ").unwrap(), TaskReference::Id(12)));
    match parse_task_reference(" key:12 ").unwrap() {
        TaskReference::Key(k) => assert_eq!(k, "key:12"),
        other => panic!("{other:?}"),
    }
    let cases = [
        ("", "must be a numeric id, #id, or non-empty taskKey"),
        ("   ", "must be a numeric id, #id, or non-empty taskKey"),
        ("#", "# must be followed by a positive numeric task id"),
        ("#label", "# must be followed by a positive numeric task id"),
        ("0", "numeric task id must be positive"),
        ("#0", "numeric task id must be positive"),
        ("9223372036854775808", "numeric task id is out of range"),
    ];
    for (input, expected) in cases {
        let (field, reason) = invalid(&parse_task_reference(input).unwrap_err());
        assert_eq!(field, "taskReference");
        assert_eq!(reason, expected, "{input}");
    }
    assert!(matches!(
        parse_task_reference("9223372036854775807").unwrap(),
        TaskReference::Id(i64::MAX)
    ));
}

#[test]
fn task_keys_are_literal_and_cannot_shadow_numeric_references() {
    assert_eq!(validate_task_key("key:12").unwrap(), "key:12");
    match parse_task_reference("key:12").unwrap() {
        TaskReference::Key(k) => assert_eq!(k, "key:12"),
        other => panic!("{other:?}"),
    }
    match parse_task_reference("key:key:12").unwrap() {
        TaskReference::Key(k) => assert_ne!(k, "key:12"),
        other => panic!("{other:?}"),
    }
    for key in ["12", "#12", "#label"] {
        let (field, reason) = invalid(&validate_task_key(key).unwrap_err());
        assert_eq!(field, "taskKey");
        assert_eq!(reason, "must not be purely numeric or start with #");
    }
    let (_, reason) = invalid(&validate_task_key("  ").unwrap_err());
    assert_eq!(reason, "must not be empty");
}

#[test]
fn project_references_accept_ids_double_hash_ids_and_names() {
    assert!(matches!(parse_project_reference("7").unwrap(), ProjectReference::Id(7)));
    assert!(matches!(parse_project_reference("##7").unwrap(), ProjectReference::Id(7)));
    match parse_project_reference(" Mailroom ").unwrap() {
        ProjectReference::Name(n) => assert_eq!(n, "Mailroom"),
        other => panic!("{other:?}"),
    }
    let cases = [
        ("#7", "projects are referenced by id, ##id or name, not #id"),
        ("##", "## must be followed by a positive numeric project id"),
        ("##x", "## must be followed by a positive numeric project id"),
        ("0", "numeric project id must be positive"),
        ("", "must be a numeric id, ##id, or a project name"),
    ];
    for (input, expected) in cases {
        let (field, reason) = invalid(&parse_project_reference(input).unwrap_err());
        assert_eq!(field, "project");
        assert_eq!(reason, expected, "{input}");
    }
}

#[test]
fn required_text_is_kept_verbatim() {
    assert_eq!(required("goal", "  padded  ").unwrap(), "  padded  ");
    let (field, reason) = invalid(&required("goal", " \t\n").unwrap_err());
    assert_eq!((field.as_str(), reason.as_str()), ("goal", "must not be empty"));
}

#[test]
fn task_titles_require_the_display_naming_rule() {
    for title in [
        "Plain title",
        "0904|功能|ASCII separators",
        "1301｜功能｜Invalid month",
        "0230｜功能｜Invalid day",
        "0904｜测试｜Unknown type",
        "0904｜功能｜ trailing ",
        "0904｜功能｜",
        "0101｜修复｜A｜B",
        "",
    ] {
        let (field, _) = invalid(&validate_task_title(title).unwrap_err());
        assert_eq!(field, "title", "{title}");
    }
    for title in [
        "0229｜研究｜Leap-day title",
        "0904｜功能｜Reference relations",
        "1231｜文档｜Year end",
    ] {
        assert_eq!(validate_task_title(title).unwrap(), title);
    }
    assert_eq!(invalid(&validate_task_title("Still plain").unwrap_err()).0, "title");
}

#[test]
fn status_preserves_sessions_checkpoints_notes_and_legacy_facts() {
    for outcome in ["completed", "partial", "cancelled", "superseded"] {
        let legacy = legacy_status("closed", Some(outcome)).unwrap();
        let mut current = TaskStatus::Todo;
        let mut version: i64 = 4;
        for to in STATUSES {
            let requested = parse_status(to).unwrap();
            match plan_status_change(current, version, version, requested).unwrap() {
                StatusChange::Unchanged => assert_eq!(current, requested),
                StatusChange::Changed { previous, status, version: next } => {
                    assert_eq!((previous, status, next), (current, requested, version + 1));
                    version = next;
                }
            }
            current = requested;
        }
        assert_eq!(legacy_status("closed", Some(outcome)), Some(legacy));
    }
}

#[test]
fn notes_on_terminal_tasks_without_a_current_session_preserve_legacy_outcomes() {
    for (outcome, status) in [
        ("completed", "done"),
        ("partial", "cancelled"),
        ("cancelled", "cancelled"),
        ("superseded", "cancelled"),
    ] {
        assert_eq!(legacy_status("closed", Some(outcome)), Some(parse_status(status).unwrap()));
    }
}

#[test]
fn a_new_task_starts_in_todo() {
    assert_eq!(TaskStatus::initial(), TaskStatus::Todo);
    assert_eq!(TaskStatus::initial().as_str(), "todo");
}
