use steward_application::error::{AppError, ErrorCode, ErrorDetails};
use steward_application::reference::ProjectReference;
use steward_application::status::{plan_status_change, StatusChange, StatusFilter, TaskStatus};
use steward_application::task_list::{
    cursor_text, list_filter_digest, project_members, next_cursor, check_cursor, cursor_bytes, escaped_like_pattern, plan_task_list, take_page,
    task_list_filter_digest, validate_list_fields, TaskListCursor, TaskListOptions,
    DEFAULT_TASK_PAGE_SIZE, MAX_TASK_PAGE_SIZE,
};
use steward_application::task_patch::{
    check_patch_shape, parse_patch, plan_retitle, plan_task_create, plan_task_update, PatchField,
    PatchValue, TaskCreateInput, TaskText,
};

fn invalid(error: &AppError) -> (String, String) {
    assert_eq!(error.body.code, ErrorCode::InvalidInput);
    match &error.body.details {
        ErrorDetails::Invalid { field, reason } => (field.clone(), reason.clone()),
        other => panic!("unexpected details {other:?}"),
    }
}

fn options() -> TaskListOptions {
    TaskListOptions::default()
}

#[test]
fn invalid_page_sizes_are_refused() {
    for size in [0, 201, u32::MAX] {
        let error = plan_task_list(&TaskListOptions { page_size: Some(size), ..options() }).unwrap_err();
        assert_eq!(invalid(&error), ("pageSize".to_string(), "must be between 1 and 200".to_string()));
    }
    for size in [1, 50, 200] {
        let plan = plan_task_list(&TaskListOptions { page_size: Some(size), ..options() }).unwrap();
        assert_eq!(plan.page_size, size);
        assert_eq!(plan.fetch, i64::from(size) + 1);
    }
    let plan = plan_task_list(&options()).unwrap();
    assert_eq!(plan.page_size, DEFAULT_TASK_PAGE_SIZE);
    assert_eq!(DEFAULT_TASK_PAGE_SIZE, 50);
    assert_eq!(MAX_TASK_PAGE_SIZE, 200);
}

#[test]
fn list_options_are_checked_in_order() {
    let bad_everything = TaskListOptions {
        status: Some("open".to_string()),
        task_key: Some(" ".to_string()),
        query: Some("".to_string()),
        fields: vec!["nope".to_string()],
        page_size: Some(0),
        ..options()
    };
    assert_eq!(invalid(&plan_task_list(&bad_everything).unwrap_err()).0, "status");
    let no_status = TaskListOptions { status: None, ..bad_everything.clone() };
    assert_eq!(invalid(&plan_task_list(&no_status).unwrap_err()).0, "taskKey");
    let no_key = TaskListOptions { task_key: None, ..no_status.clone() };
    assert_eq!(invalid(&plan_task_list(&no_key).unwrap_err()).0, "query");
    let no_query = TaskListOptions { query: None, ..no_key.clone() };
    assert_eq!(
        invalid(&plan_task_list(&no_query).unwrap_err()),
        ("fields".to_string(), "unknown Task field".to_string())
    );
    let no_fields = TaskListOptions { fields: vec![], ..no_query };
    assert_eq!(invalid(&plan_task_list(&no_fields).unwrap_err()).0, "pageSize");
}

#[test]
fn a_plan_carries_the_filters_and_their_digest() {
    let options_used = TaskListOptions {
        status: Some("active".to_string()),
        task_key: Some("KEY".to_string()),
        query: Some("50%_off\\".to_string()),
        fields: vec!["id".to_string(), "title".to_string()],
        ..options()
    };
    let plan = plan_task_list(&options_used).unwrap();
    assert_eq!(plan.task_id, None);
    assert!(plan.project.is_none());
    assert_eq!(plan.status, Some(StatusFilter::Active));
    assert_eq!(plan.task_key.as_deref(), Some("KEY"));
    assert_eq!(plan.pattern.as_deref(), Some("%50\\%\\_off\\\\%"));
    assert_eq!(plan.fields, vec!["id".to_string(), "title".to_string()]);
    assert_eq!(
        list_filter_digest(&options_used, None),
        task_list_filter_digest(Some("active"), Some("KEY"), Some("50%_off\\"), None)
    );
    let only = plan_task_list(&TaskListOptions { status: Some("done".to_string()), ..options() }).unwrap();
    assert_eq!(only.status, Some(StatusFilter::Only(TaskStatus::Done)));
}

#[test]
fn filter_digests_are_stable_and_distinguish_fields() {
    let a = task_list_filter_digest(Some("todo"), None, None, None);
    assert_eq!(a, task_list_filter_digest(Some("todo"), None, None, None));
    assert_eq!(a.len(), 64);
    assert_ne!(a, task_list_filter_digest(None, Some("todo"), None, None));
    assert_ne!(a, task_list_filter_digest(None, None, Some("todo"), None));
    assert_ne!(
        task_list_filter_digest(None, None, None, None),
        task_list_filter_digest(None, None, Some(""), None)
    );
}

#[test]
fn field_projection_refuses_unknown_and_repeated_names() {
    let ok = vec!["updatedAt".to_string(), "projectId".to_string(), "componentIds".to_string()];
    assert_eq!(validate_list_fields(&ok).unwrap(), ok);
    let (_, reason) = invalid(&validate_list_fields(&vec!["worktreePath".to_string()]).unwrap_err());
    assert_eq!(reason, "unknown Task field");
    let (_, reason) =
        invalid(&validate_list_fields(&vec!["id".to_string(), "id".to_string()]).unwrap_err());
    assert_eq!(reason, "duplicate Task field");
}

#[test]
fn like_patterns_escape_wildcards_and_the_escape_character() {
    assert_eq!(escaped_like_pattern("plain"), "%plain%");
    assert_eq!(escaped_like_pattern("a_b%c\\d"), "%a\\_b\\%c\\\\d%");
    assert_eq!(escaped_like_pattern(""), "%%");
}

#[test]
fn cursors_are_bounded_hex_bound_to_their_filters() {
    assert_eq!(cursor_bytes("7b7d").unwrap(), b"{}".to_vec());
    for text in ["", "zz", "abc"] {
        let (field, reason) = invalid(&cursor_bytes(text).unwrap_err());
        assert_eq!((field.as_str(), reason.as_str()), ("cursor", "must be a cursor returned by task list"));
    }
    assert!(cursor_bytes(&"a".repeat(4098)).is_err());
    assert!(cursor_bytes(&"ab".repeat(2048)).is_ok());
    let digest = task_list_filter_digest(None, None, Some("x"), None);
    let cursor = TaskListCursor {
        version: 1,
        updated_at: "2026-09-08T00:00:00.000000000Z".to_string(),
        id: 3,
        filter_digest: digest.clone(),
    };
    assert!(check_cursor(&cursor, &digest).is_ok());
    let other = task_list_filter_digest(None, None, Some("y"), None);
    assert_eq!(
        invalid(&check_cursor(&cursor, &other).unwrap_err()).1,
        "does not match the current filters"
    );
    for bad in [
        TaskListCursor { version: 2, ..cursor.clone() },
        TaskListCursor { id: 0, ..cursor.clone() },
        TaskListCursor { updated_at: "yesterday".to_string(), ..cursor.clone() },
    ] {
        assert_eq!(invalid(&check_cursor(&bad, &digest).unwrap_err()).1, "must be a cursor returned by task list");
    }
}

#[test]
fn pages_hold_at_most_the_limit_and_report_more() {
    assert_eq!(take_page(vec![1, 2, 3], 2), (vec![1, 2], true));
    assert_eq!(take_page(vec![1, 2], 2), (vec![1, 2], false));
    assert_eq!(take_page(Vec::<i32>::new(), 2), (vec![], false));
}

fn text(value: &str) -> PatchValue {
    PatchValue::Text(value.to_string())
}

fn field(key: &str, value: PatchValue) -> PatchField {
    PatchField { key: key.to_string(), value }
}

fn task() -> TaskText {
    TaskText {
        task_key: None,
        title: Some("0904｜功能｜Original".to_string()),
        goal: Some("Goal".to_string()),
        scope: None,
        acceptance_criteria: None,
        next_step: Some("Next".to_string()),
    }
}

#[test]
fn patches_must_name_known_fields() {
    assert_eq!(invalid(&check_patch_shape(&[]).unwrap_err()), ("input".to_string(), "patch cannot be empty".to_string()));
    let error = check_patch_shape(&[field("goal", text("g")), field("owner", text("x"))]).unwrap_err();
    assert_eq!(invalid(&error), ("owner".to_string(), "unknown patch field".to_string()));
    assert!(check_patch_shape(&[field("goal", text("g"))]).is_ok());
}

#[test]
fn a_patch_changes_fields_and_bumps_the_version() {
    let plan = plan_task_update(
        &task(),
        3,
        3,
        &[field("scope", text("Scope")), field("nextStep", PatchValue::Null), field("goal", text("Goal"))],
    )
    .unwrap();
    assert_eq!(plan.version, 4);
    assert_eq!(plan.fields.scope.as_deref(), Some("Scope"));
    assert_eq!(plan.fields.next_step, None);
    assert_eq!(plan.fields.goal.as_deref(), Some("Goal"));
    assert!(plan.changed.scope && plan.changed.next_step && !plan.changed.goal);
    let names = plan.changed.names();
    assert!(names.contains(&"scope") && names.contains(&"nextStep"));
    assert!(!names.contains(&"goal"));
}

#[test]
fn a_patch_that_changes_nothing_or_clears_set_text_is_refused() {
    let error = plan_task_update(&task(), 3, 3, &[field("goal", text("Goal"))]).unwrap_err();
    assert_eq!(invalid(&error), ("input".to_string(), "patch does not change any field".to_string()));
    let error = plan_task_update(&task(), 3, 3, &[field("goal", PatchValue::Null)]).unwrap_err();
    assert_eq!(invalid(&error), ("goal".to_string(), "cannot be cleared once set".to_string()));
    let error = plan_task_update(&task(), 3, 3, &[field("title", text("Still plain"))]).unwrap_err();
    assert_eq!(invalid(&error).0, "title");
    let error = plan_task_update(&task(), 3, 3, &[field("scope", PatchValue::Other)]).unwrap_err();
    assert_eq!(invalid(&error), ("scope".to_string(), "must be a string or null".to_string()));
    let error = plan_task_update(&task(), 3, 2, &[field("scope", text("x"))]).unwrap_err();
    assert_eq!(error.body.code.as_str(), "VERSION_CONFLICT");
}

#[test]
fn a_task_key_is_set_once() {
    let plan = plan_task_update(&task(), 1, 1, &[field("taskKey", text("KEY"))]).unwrap();
    assert_eq!(plan.fields.task_key.as_deref(), Some("KEY"));
    let keyed = plan.fields;
    let error = plan_task_update(&keyed, 2, 2, &[field("taskKey", text("OTHER"))]).unwrap_err();
    assert_eq!(error.body.code.as_str(), "CONSTRAINT_VIOLATION");
    match &error.body.details {
        ErrorDetails::Constraint { constraint } => assert_eq!(constraint, "tasks.task_key.immutable"),
        other => panic!("{other:?}"),
    }
    let error = plan_task_update(&task(), 1, 1, &[field("taskKey", text("12"))]).unwrap_err();
    assert_eq!(invalid(&error).0, "taskKey");
}

#[test]
fn creation_validates_the_key_title_and_texts() {
    let input = TaskCreateInput {
        task_key: Some("VALID-TITLE".to_string()),
        title: Some("0229｜研究｜Leap-day title".to_string()),
        goal: None,
        scope: None,
        acceptance_criteria: None,
        next_step: None,
    };
    let created = plan_task_create(Some("VALID-TITLE"), &input).unwrap();
    assert_eq!(created.title.as_deref(), Some("0229｜研究｜Leap-day title"));
    assert_eq!(created.task_key.as_deref(), Some("VALID-TITLE"));
    let error = plan_task_create(Some("OTHER"), &input).unwrap_err();
    assert_eq!(invalid(&error).0, "taskKey");
    let plain = TaskCreateInput { title: Some("Plain title".to_string()), ..input.clone() };
    assert_eq!(invalid(&plan_task_create(None, &plain).unwrap_err()).0, "title");
    let blank_goal = TaskCreateInput { goal: Some(" ".to_string()), ..input.clone() };
    assert_eq!(invalid(&plan_task_create(None, &blank_goal).unwrap_err()).0, "goal");
    let minimal = TaskCreateInput {
        task_key: None,
        title: None,
        goal: None,
        scope: None,
        acceptance_criteria: None,
        next_step: None,
    };
    let created = plan_task_create(None, &minimal).unwrap();
    assert!(created.title.is_none() && created.task_key.is_none());
}

#[test]
fn a_retitle_must_follow_the_rule_and_change_the_title() {
    let current = Some("0904｜功能｜Original".to_string());
    assert_eq!(
        plan_retitle(&current, 3, 3, "0904｜功能｜Retitled closed task").unwrap(),
        ("0904｜功能｜Retitled closed task".to_string(), 4)
    );
    assert_eq!(invalid(&plan_retitle(&current, 3, 3, "Still plain").unwrap_err()).0, "title");
    assert_eq!(plan_retitle(&current, 3, 2, "0904｜功能｜New").unwrap_err().body.code.as_str(), "VERSION_CONFLICT");
    assert_eq!(
        invalid(&plan_retitle(&current, 3, 3, "0904｜功能｜Original").unwrap_err()),
        ("title".to_string(), "does not change the task title".to_string())
    );
    assert_eq!(plan_retitle(&None, 1, 1, "0904｜功能｜First").unwrap().1, 2);
}

#[test]
fn task_list_cursor_size_is_bounded_for_long_filters() {
    let query = "x".repeat(2_100);
    let first_options = TaskListOptions {
        query: Some(query.clone()),
        page_size: Some(1),
        ..TaskListOptions::default()
    };
    let first = plan_task_list(&first_options).unwrap();
    let first_digest = list_filter_digest(&first_options, None);
    assert_eq!(first.fetch, 2);
    let rows = vec![("2026-09-04T00:00:02.000000000Z", 2i64), ("2026-09-04T00:00:01.000000000Z", 1i64)];
    let (page, has_more) = take_page(rows.clone(), first.page_size as usize);
    assert!(has_more);
    let (updated_at, id) = page[page.len() - 1];
    let json = format!(
        "{{\"version\":1,\"updatedAt\":\"{updated_at}\",\"id\":{id},\"filterDigest\":\"{}\"}}",
        first_digest
    );
    let cursor = hex::encode(json.as_bytes());
    assert!(cursor.len() <= 4096);
    assert_eq!(cursor_bytes(&cursor).unwrap(), json.as_bytes());
    let second_options = TaskListOptions {
        query: Some(query),
        page_size: Some(1),
        cursor: Some(cursor.clone()),
        ..TaskListOptions::default()
    };
    let second = plan_task_list(&second_options).unwrap();
    let decoded = next_cursor(Some((updated_at, id)), has_more, &first_digest).unwrap();
    assert!(check_cursor(&decoded, &list_filter_digest(&second_options, None)).is_ok());
    let remaining: Vec<(&str, i64)> = rows.into_iter().filter(|r| r.1 != id).collect();
    let (page, has_more) = take_page(remaining, second.page_size as usize);
    assert_eq!(page.len(), 1);
    assert!(!has_more);
}

#[test]
fn task_list_supports_filters_projection_and_stable_cursor_pagination() {
    let exact = plan_task_list(&TaskListOptions {
        task_key: Some("LIST-B".to_string()),
        fields: vec!["id".to_string(), "taskKey".to_string()],
        ..options()
    })
    .unwrap();
    assert_eq!(exact.task_key.as_deref(), Some("LIST-B"));
    assert_eq!(exact.fields.len(), 2);
    let searched = plan_task_list(&TaskListOptions { query: Some("needle".to_string()), ..options() }).unwrap();
    assert_eq!(searched.pattern.as_deref(), Some("%needle%"));
    let wildcard = plan_task_list(&TaskListOptions { query: Some("%".to_string()), ..options() }).unwrap();
    assert_eq!(wildcard.pattern.as_deref(), Some("%\\%%"));
    let active = plan_task_list(&TaskListOptions { status: Some("in_progress".to_string()), ..options() }).unwrap();
    assert_eq!(active.status, Some(StatusFilter::Only(TaskStatus::InProgress)));
    let rows: Vec<i64> = vec![1, 2, 3, 4, 5];
    let paged = plan_task_list(&TaskListOptions { page_size: Some(2), fields: vec!["title".to_string()], ..options() })
        .unwrap();
    assert_eq!(paged.page_size, 2);
    let mut seen = Vec::new();
    let mut start = 0;
    loop {
        let window: Vec<i64> = rows.iter().copied().skip(start).take(paged.fetch as usize).collect();
        let (page, more) = take_page(window, paged.page_size as usize);
        start += page.len();
        seen.extend(page);
        if !more {
            break;
        }
    }
    seen.sort();
    seen.dedup();
    assert_eq!(seen.len(), 5);
    let first_options = TaskListOptions { page_size: Some(1), ..options() };
    assert!(plan_task_list(&first_options).is_ok());
    let cursor = TaskListCursor {
        version: 1,
        updated_at: "2026-09-04T00:00:00.000000000Z".to_string(),
        id: 5,
        filter_digest: list_filter_digest(&first_options, None),
    };
    let todo_options = TaskListOptions { status: Some("todo".to_string()), ..options() };
    assert!(plan_task_list(&todo_options).is_ok());
    assert_eq!(invalid(&check_cursor(&cursor, &list_filter_digest(&todo_options, None)).unwrap_err()).0, "cursor");
    assert_eq!(invalid(&cursor_bytes("not-a-cursor").unwrap_err()).0, "cursor");
    for page_size in [0, 201] {
        let error = plan_task_list(&TaskListOptions { page_size: Some(page_size), ..options() }).unwrap_err();
        assert_eq!(invalid(&error).0, "pageSize");
    }
}

#[test]
fn minimal_create_merge_patch_and_terminal_maintenance_follow_cas() {
    let minimal = TaskCreateInput {
        task_key: None,
        title: None,
        goal: None,
        scope: None,
        acceptance_criteria: None,
        next_step: None,
    };
    let created = plan_task_create(None, &minimal).unwrap();
    assert!(created.task_key.is_none() && created.title.is_none());
    assert!(matches!(
        plan_status_change(TaskStatus::Todo, 1, 1, TaskStatus::Done).unwrap(),
        StatusChange::Changed { version: 2, .. }
    ));
    let filled = plan_task_update(
        &created,
        2,
        2,
        &[
            field("taskKey", text("PATCHABLE")),
            field("title", text("0904｜功能｜Initial title")),
            field("goal", text("Initial goal")),
            field("scope", text("Initial scope")),
            field("acceptanceCriteria", text("Initial acceptance")),
            field("nextStep", text("Continue")),
        ],
    )
    .unwrap();
    assert_eq!(filled.version, 3);
    let patched = plan_task_update(
        &filled.fields,
        3,
        3,
        &[
            field("title", text("0904｜优化｜Patched title")),
            field("goal", text("Patched goal")),
            field("nextStep", PatchValue::Null),
        ],
    )
    .unwrap();
    assert_eq!(patched.version, 4, "one patch increments version once");
    assert_eq!(patched.fields.title.as_deref(), Some("0904｜优化｜Patched title"));
    assert!(patched.fields.next_step.is_none());
    let immutable_key = plan_task_update(&patched.fields, 4, 4, &[field("taskKey", text("OTHER"))]).unwrap_err();
    assert_eq!(immutable_key.body.code.as_str(), "CONSTRAINT_VIOLATION");
    let clearing = plan_task_update(&patched.fields, 4, 4, &[field("title", PatchValue::Null)]).unwrap_err();
    assert_eq!(clearing.body.code.as_str(), "INVALID_INPUT");
    assert_eq!(invalid(&clearing).0, "title");
    assert!(matches!(
        plan_status_change(TaskStatus::Done, 4, 4, TaskStatus::Cancelled).unwrap(),
        StatusChange::Changed { version: 5, .. }
    ));
    let ordinary = plan_task_update(
        &patched.fields,
        5,
        5,
        &[field("nextStep", text("follow-up after cancellation"))],
    )
    .unwrap();
    assert_eq!(ordinary.fields.next_step.as_deref(), Some("follow-up after cancellation"));
    assert_eq!(ordinary.version, 6);
    let retitled = plan_retitle(&ordinary.fields.title, 6, 6, "0904｜功能｜Retitled closed task").unwrap();
    assert_eq!(retitled, ("0904｜功能｜Retitled closed task".to_string(), 7));
    let stale = plan_retitle(&Some(retitled.0.clone()), 7, 5, "0904｜功能｜Stale title").unwrap_err();
    assert_eq!(stale.body.code.as_str(), "VERSION_CONFLICT");
}

#[test]
fn filter_digests_bind_each_filter_to_its_own_slot() {
    let cases = [
        (Some("todo"), None, None),
        (None, Some("todo"), None),
        (None, None, Some("todo")),
        (Some(""), None, None),
        (None, None, None),
        (Some("a"), Some("b"), None),
        (Some("ab"), None, None),
    ];
    for (i, a) in cases.iter().enumerate() {
        for (j, b) in cases.iter().enumerate() {
            let same = task_list_filter_digest(a.0, a.1, a.2, None) == task_list_filter_digest(b.0, b.1, b.2, None);
            assert_eq!(same, i == j, "{a:?} {b:?}");
        }
    }
}

#[test]
fn numeric_queries_match_exact_ids_and_keep_status_project_and_text_filters() {
    let search = |query: &str, status: Option<&str>, project: Option<&str>| {
        plan_task_list(&TaskListOptions {
            query: Some(query.to_owned()),
            status: status.map(str::to_owned),
            project: project.map(str::to_owned),
            ..TaskListOptions::default()
        })
    };
    for query in ["1", "#1", "01", " #1 "] {
        let plan = search(query, None, None).unwrap();
        assert_eq!(plan.task_id, Some(1), "{query}");
        assert!(plan.pattern.is_none());
    }
    assert_eq!(search("#99", None, None).unwrap().task_id, Some(99));
    let in_two = search("1", None, Some("2")).unwrap();
    assert!(matches!(in_two.project, Some(ProjectReference::Id(2))));
    assert_eq!(in_two.task_id, Some(1));
    let in_one = search("1", None, Some("1")).unwrap();
    assert!(matches!(in_one.project, Some(ProjectReference::Id(1))));
    let open = search("#1", Some("in_progress"), None).unwrap();
    assert_eq!(open.status, Some(StatusFilter::Only(TaskStatus::InProgress)));
    assert_eq!(open.task_id, Some(1));
    let wildcard = search("%", None, None).unwrap();
    assert_eq!(wildcard.task_id, None);
    assert_eq!(wildcard.pattern.as_deref(), Some("%\\%%"));
    assert_eq!(search("alpha", None, None).unwrap().pattern.as_deref(), Some("%alpha%"));
    assert_eq!(search("#label", None, None).unwrap().pattern.as_deref(), Some("%#label%"));
    let error = search("#999999999999999999999999", None, None).unwrap_err();
    assert_eq!(invalid(&error), ("query".to_string(), "numeric task id is out of range".to_string()));
    assert_eq!(invalid(&search("x", None, Some("#1")).unwrap_err()).0, "project");
}

#[test]
fn project_resolution_is_atomic_with_creation_and_filters_bind_cursor_to_id() {
    let mut options = TaskListOptions {
        project: Some("Mailroom".into()),
        page_size: Some(1),
        fields: vec!["id".into(), "projectId".into()],
        ..TaskListOptions::default()
    };
    let plan = plan_task_list(&options).unwrap();
    assert!(matches!(&plan.project, Some(ProjectReference::Name(n)) if n == "Mailroom"));
    let cursor = next_cursor(Some(("2026-09-04T00:00:00.000000000Z", 3)), true, &list_filter_digest(&options, Some(1)))
        .unwrap();
    options.cursor = Some("c".into());
    options.project = Some("##1".into());
    assert!(matches!(plan_task_list(&options).unwrap().project, Some(ProjectReference::Id(1))));
    assert!(check_cursor(&cursor, &list_filter_digest(&options, Some(1))).is_ok());
    options.project = Some("##2".into());
    assert_eq!(invalid(&check_cursor(&cursor, &list_filter_digest(&options, Some(2))).unwrap_err()).0, "cursor");
    assert!(next_cursor(Some(("2026-09-04T00:00:00.000000000Z", 3)), false, "d").is_none());
    assert!(next_cursor(None, true, "d").is_none());
    assert_ne!(task_list_filter_digest(None, None, None, Some(1)), task_list_filter_digest(None, None, None, Some(2)));
    assert_ne!(task_list_filter_digest(None, None, None, Some(1)), task_list_filter_digest(None, None, None, None));
}

#[test]
fn following_cursors_visits_every_row_once_in_order() {
    let rows: Vec<i64> = (1..=7).collect();
    for k in 1..=8usize {
        let mut seen = Vec::new();
        let mut start = 0usize;
        loop {
            let window: Vec<i64> = rows.iter().copied().skip(start).take(k + 1).collect();
            let (page, more) = take_page(window, k);
            assert!(page.len() <= k);
            if more {
                assert_eq!(page.len(), k);
            }
            start += page.len();
            seen.extend(page);
            if !more {
                break;
            }
        }
        assert_eq!(seen, rows);
    }
    assert_eq!(cursor_text(b"{}"), "7b7d");
}

fn empty_task() -> TaskText {
    TaskText { task_key: None, title: None, goal: None, scope: None, acceptance_criteria: None, next_step: None }
}

fn names_of(patch: &[PatchField]) -> Vec<&str> {
    patch.iter().map(|f| f.key.as_str()).collect()
}

#[test]
fn a_patch_document_fills_then_patches_a_task() {
    let fill = parse_patch(
        r#"{
            "taskKey":"PATCHABLE",
            "title":"0904｜功能｜Initial title",
            "goal":"Initial goal",
            "scope":"Initial scope",
            "acceptanceCriteria":"Initial acceptance",
            "nextStep":"Continue"
        }"#,
    )
    .unwrap();
    assert_eq!(names_of(&fill), vec!["acceptanceCriteria", "goal", "nextStep", "scope", "taskKey", "title"]);
    assert!(check_patch_shape(&fill).is_ok());
    let filled = plan_task_update(&empty_task(), 2, 2, &fill).unwrap();
    assert_eq!(filled.version, 3);
    assert_eq!(filled.fields.task_key.as_deref(), Some("PATCHABLE"));
    assert_eq!(filled.fields.acceptance_criteria.as_deref(), Some("Initial acceptance"));

    let patch = parse_patch(r#"{"title":"0904｜优化｜Patched title","goal":"Patched goal","nextStep":null}"#).unwrap();
    assert_eq!(names_of(&patch), vec!["goal", "nextStep", "title"]);
    assert!(matches!(patch[1].value, PatchValue::Null));
    let patched = plan_task_update(&filled.fields, 3, 3, &patch).unwrap();
    assert_eq!(patched.version, 4);
    assert_eq!(patched.fields.title.as_deref(), Some("0904｜优化｜Patched title"));
    assert_eq!(patched.fields.next_step, None);

    let other_key = parse_patch(r#"{"taskKey":"OTHER"}"#).unwrap();
    let error = plan_task_update(&patched.fields, 4, 4, &other_key).unwrap_err();
    assert_eq!(error.body.code, ErrorCode::ConstraintViolation);

    let clearing = parse_patch(r#"{"title":null}"#).unwrap();
    let error = plan_task_update(&patched.fields, 4, 4, &clearing).unwrap_err();
    assert_eq!(invalid(&error).0, "title");
}

#[test]
fn a_patch_document_must_be_a_json_object() {
    for text in ["[1, 2]", "\"title\"", "3", "null", "true"] {
        let error = parse_patch(text).unwrap_err();
        assert_eq!(invalid(&error), ("input".to_string(), "must be a JSON object".to_string()));
    }
    for text in ["{", "", "{\"title\":}", "{} extra"] {
        let error = parse_patch(text).unwrap_err();
        let expected = serde_json::from_str::<serde_json::Value>(text).unwrap_err().to_string();
        assert!(!expected.is_empty());
        assert_eq!(invalid(&error), ("input".to_string(), expected));
    }
    let empty = parse_patch("{}").unwrap();
    assert!(empty.is_empty());
    assert_eq!(invalid(&check_patch_shape(&empty).unwrap_err()), ("input".to_string(), "patch cannot be empty".to_string()));
}

#[test]
fn a_patch_document_keeps_the_last_of_repeated_names_and_reduces_values() {
    let patch = parse_patch(r#"{"goal":"first","scope":3,"goal":"second","title":true,"nextStep":{},"taskKey":[1]}"#).unwrap();
    assert_eq!(names_of(&patch), vec!["goal", "nextStep", "scope", "taskKey", "title"]);
    assert!(matches!(&patch[0].value, PatchValue::Text(t) if t == "second"));
    for f in &patch[1..] {
        assert!(matches!(f.value, PatchValue::Other), "{} should be Other", f.key);
    }
    let unknown = parse_patch(r#"{"owner":"x","goal":"g"}"#).unwrap();
    assert_eq!(invalid(&check_patch_shape(&unknown).unwrap_err()), ("owner".to_string(), "unknown patch field".to_string()));
}

/// The keyset condition the list query puts on rows after a cursor.
fn after(row: &(String, i64), cursor: &TaskListCursor) -> bool {
    row.0 < cursor.updated_at || (row.0 == cursor.updated_at && row.1 > cursor.id)
}

#[test]
fn following_cursors_through_ordered_rows_lists_each_row_once_in_order() {
    // Update time descending, then id ascending.
    let rows: Vec<(String, i64)> = vec![
        ("2026-01-03T00:00:00.000000000Z".to_string(), 4),
        ("2026-01-02T00:00:00.000000000Z".to_string(), 1),
        ("2026-01-02T00:00:00.000000000Z".to_string(), 2),
        ("2026-01-02T00:00:00.000000000Z".to_string(), 7),
        ("2026-01-01T00:00:00.000000000Z".to_string(), 3),
    ];
    for k in 1..=6usize {
        let mut listed: Vec<(String, i64)> = Vec::new();
        let mut cursor: Option<TaskListCursor> = None;
        loop {
            let fetched: Vec<(String, i64)> = rows
                .iter()
                .filter(|r| cursor.as_ref().map_or(true, |c| after(r, c)))
                .take(k + 1)
                .cloned()
                .collect();
            let (page, more) = take_page(fetched, k);
            assert!(page.len() <= k);
            let last = page.last().map(|r| (r.0.as_str(), r.1));
            let next = next_cursor(last, more, "digest");
            assert_eq!(next.is_some(), more);
            listed.extend(page.iter().cloned());
            match next {
                Some(c) => cursor = Some(c),
                None => break,
            }
        }
        assert_eq!(listed, rows, "page size {k}");
    }
}

#[test]
fn a_projection_keeps_exactly_the_requested_fields_in_order() {
    let members: Vec<String> = ["id", "taskKey", "title", "status", "version", "updatedAt"]
        .iter()
        .map(|s| s.to_string())
        .collect();
    let fields: Vec<String> = ["version", "id", "title"].iter().map(|s| s.to_string()).collect();
    let positions = project_members(&members, &fields);
    assert_eq!(positions, vec![4, 0, 2]);
    let keys: Vec<&str> = positions.iter().map(|&j| members[j].as_str()).collect();
    assert_eq!(keys, vec!["version", "id", "title"]);
    assert_eq!(project_members(&members, &Vec::new()), vec![0, 1, 2, 3, 4, 5]);
}
