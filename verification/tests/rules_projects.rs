use steward_application::error::{AppError, ErrorCode, ErrorDetails};
use steward_application::projects::{
    check_component_capacity, check_listed_components, check_listed_sources,
    check_project_revision, check_source_capacity, next_after, next_project_revision,
    plan_profile_set, plan_project_rename, validate_page, RenamePlan, validate_profile_input, ProjectProfileInput,
    SourceLocation,
};
use steward_application::reference::{parse_project_reference, ProjectReference};
use steward_application::rules::{
    check_rule_filter, check_rule_history_entry, check_rule_reason, check_source_task_version,
    finish_rule_write, resolve_rule_input, rule_unchanged, validate_rule, validate_rule_view,
    RuleContent, RuleInput, RuleOperation, RuleSource, RuleView, MAX_RULE_BYTES,
};

fn invalid(error: &AppError) -> (String, String) {
    assert_eq!(error.body.code, ErrorCode::InvalidInput);
    match &error.body.details {
        ErrorDetails::Invalid { field, reason } => (field.clone(), reason.clone()),
        other => panic!("unexpected details {other:?}"),
    }
}

fn source(kind: &str, evidence: &str) -> RuleSource {
    RuleSource { kind: kind.to_string(), evidence: evidence.to_string(), task_id: None, task_version: None }
}

fn input() -> RuleInput {
    RuleInput {
        scope: "global".to_string(),
        project_id: None,
        status: "active".to_string(),
        content_version: 1,
        content: RuleContent {
            name: "Feedback".to_string(),
            body: "Prefer explicit names".to_string(),
            sources: vec![source("explicit", "user said so")],
        },
    }
}

fn view(revision: i64, status: &str) -> RuleView {
    let i = input();
    RuleView {
        id: 9,
        scope: i.scope,
        project_id: i.project_id,
        status: status.to_string(),
        revision,
        content_version: 1,
        content: i.content,
        created_at: "2026-09-08T00:00:00Z".to_string(),
        updated_at: "2026-09-08T00:00:00Z".to_string(),
    }
}

#[test]
fn rule_input_is_checked_field_by_field() {
    assert!(validate_rule(&input(), 100).is_ok());
    let cases: Vec<(RuleInput, &str, &str)> = vec![
        (RuleInput { content_version: 2, ..input() }, "contentVersion", "only version 1 is supported"),
        (RuleInput { status: "enabled".to_string(), ..input() }, "status", "expected candidate, active or disabled"),
        (RuleInput { project_id: Some(1), ..input() }, "scope", "global requires null projectId; project requires positive projectId"),
        (RuleInput { scope: "project".to_string(), project_id: Some(0), ..input() }, "scope", "global requires null projectId; project requires positive projectId"),
        (RuleInput { content: RuleContent { name: " ".to_string(), ..input().content }, ..input() }, "name", "nonblank text without NUL, at most 300 UTF-8 bytes required"),
        (RuleInput { content: RuleContent { name: "界".repeat(101), ..input().content }, ..input() }, "name", "nonblank text without NUL, at most 300 UTF-8 bytes required"),
        (RuleInput { content: RuleContent { body: "a\0b".to_string(), ..input().content }, ..input() }, "body", "nonblank text without NUL, at most 48000 UTF-8 bytes required"),
        (RuleInput { content: RuleContent { sources: (0..33).map(|i| source("explicit", &i.to_string())).collect(), ..input().content }, ..input() }, "sources", "at most 32 sources"),
        (RuleInput { content: RuleContent { sources: vec![source("guessed", "x")], ..input().content }, ..input() }, "sources.kind", "expected explicit or inferred"),
        (RuleInput { content: RuleContent { sources: vec![source("inferred", "")], ..input().content }, ..input() }, "sources.evidence", "nonblank text without NUL, at most 4000 UTF-8 bytes required"),
        (RuleInput { content: RuleContent { sources: vec![RuleSource { task_id: Some(1), ..source("explicit", "x") }], ..input().content }, ..input() }, "sources", "taskId/taskVersion must both be null or positive"),
        (RuleInput { content: RuleContent { sources: vec![source("explicit", "x"), source("explicit", "x")], ..input().content }, ..input() }, "sources", "duplicate source"),
    ];
    for (candidate, field, reason) in cases {
        assert_eq!(invalid(&validate_rule(&candidate, 100).unwrap_err()), (field.to_string(), reason.to_string()));
    }
    let name_limit = RuleInput { content: RuleContent { name: "界".repeat(100), ..input().content }, ..input() };
    assert!(validate_rule(&name_limit, 100).is_ok());
    assert_eq!(
        invalid(&validate_rule(&input(), MAX_RULE_BYTES + 1).unwrap_err()),
        ("content".to_string(), "exceeds 65536 UTF-8 JSON bytes".to_string())
    );
    assert!(validate_rule(&input(), MAX_RULE_BYTES).is_ok());
}

#[test]
fn rule_filters_reasons_and_cited_versions_are_bounded() {
    assert!(check_rule_filter(Some("project"), Some(1), Some("candidate")).is_ok());
    assert!(check_rule_filter(None, None, None).is_ok());
    for (scope, project, status) in [(Some("all"), None, None), (None, Some(0), None), (None, None, Some("on"))] {
        assert_eq!(invalid(&check_rule_filter(scope, project, status).unwrap_err()), ("filter".to_string(), "invalid rule filter".to_string()));
    }
    assert!(check_rule_reason("fixture").is_ok());
    assert_eq!(invalid(&check_rule_reason("").unwrap_err()).0, "reason");
    assert!(check_source_task_version(3, 3).is_ok());
    assert_eq!(invalid(&check_source_task_version(4, 3).unwrap_err()), ("sources.taskVersion".to_string(), "cannot reference a future task version".to_string()));
}

#[test]
fn writes_need_the_current_revision_and_a_change() {
    let before = view(2, "active");
    let stale = resolve_rule_input(Some((9, 1)), Some(input()), Some(&before)).unwrap_err();
    assert_eq!(stale.body.code.as_str(), "VERSION_CONFLICT");
    match &stale.body.details {
        ErrorDetails::RuleRevision { rule_id, expected, current, rule } => {
            assert_eq!((*rule_id, *expected, *current), (9, 1, 2));
            assert_eq!((rule.id, rule.revision, rule.status.as_str()), (9, 2, "active"));
            assert_eq!(rule.content.name, "Feedback");
        }
        other => panic!("{other:?}"),
    }
    let disabled = resolve_rule_input(Some((9, 2)), None, Some(&before)).unwrap();
    assert_eq!(disabled.status, "disabled");
    assert_eq!(disabled.content.name, "Feedback");
    let write = finish_rule_write(Some(&before), disabled, true).unwrap();
    assert_eq!(write.revision, 3);
    assert_eq!(write.operation, RuleOperation::Disabled);
    assert_eq!(write.operation.as_str(), "rule.disabled");
    let same = resolve_rule_input(Some((9, 2)), Some(input()), Some(&before)).unwrap();
    assert!(rule_unchanged(&before, &same));
    assert_eq!(invalid(&finish_rule_write(Some(&before), same, false).unwrap_err()), ("input".to_string(), "no rule change".to_string()));
    let created = finish_rule_write(None, input(), false).unwrap();
    assert_eq!((created.revision, created.operation), (1, RuleOperation::Created));
    assert_eq!(RuleOperation::Created.as_str(), "rule.created");
    let edited = RuleInput { status: "candidate".to_string(), ..input() };
    let updated = finish_rule_write(Some(&before), edited, false).unwrap();
    assert_eq!((updated.revision, updated.operation.as_str()), (3, "rule.updated"));
}

#[test]
fn stored_rules_and_history_are_checked() {
    assert!(validate_rule_view(&view(1, "active"), 10).is_ok());
    let corrupt = validate_rule_view(&view(0, "active"), 10).unwrap_err();
    assert_eq!(corrupt.body.code.as_str(), "DATABASE_UNAVAILABLE");
    assert_eq!(corrupt.exit_code, 10);
    assert!(validate_rule_view(&view(1, "enabled"), 10).is_err());
    assert!(check_rule_history_entry(9, 2, Some(&view(1, "active")), &view(2, "active")).is_ok());
    assert!(check_rule_history_entry(9, 1, None, &view(1, "active")).is_ok());
    assert!(check_rule_history_entry(9, 3, Some(&view(1, "active")), &view(3, "active")).is_err());
    assert!(check_rule_history_entry(8, 2, None, &view(2, "active")).is_err());
}

#[test]
fn project_revisions_use_compare_and_swap() {
    assert!(check_project_revision(1, 5, 5).is_ok());
    let error = check_project_revision(1, 5, 4).unwrap_err();
    assert_eq!(error.body.code.as_str(), "VERSION_CONFLICT");
    assert!(matches!(error.body.details, ErrorDetails::ProjectRevision { project_id: 1, expected: 4, current: 5 }));
    assert_eq!(next_project_revision(5).unwrap(), 6);
    assert_eq!(next_project_revision(i64::MAX).unwrap_err().body.code.as_str(), "CONSTRAINT_VIOLATION");
}

#[test]
fn project_lists_and_capacities_are_bounded() {
    assert!(validate_page(0, 200).is_ok());
    for (after, limit) in [(-1, 1), (0, 0), (0, 201)] {
        assert_eq!(invalid(&validate_page(after, limit).unwrap_err()).0, "page");
    }
    assert_eq!(next_after(&[3, 7], true), Some(7));
    assert_eq!(next_after(&[3, 7], false), None);
    assert_eq!(next_after(&[], true), None);
    assert!(check_component_capacity(199).is_ok());
    assert_eq!(invalid(&check_component_capacity(200).unwrap_err()), ("components".to_string(), "at most 200 components per project".to_string()));
    assert!(check_source_capacity(199).is_ok());
    assert_eq!(invalid(&check_source_capacity(200).unwrap_err()), ("sources".to_string(), "at most 200 source roots per project".to_string()));
    assert!(check_listed_components(200).is_ok());
    assert_eq!(invalid(&check_listed_components(201).unwrap_err()).1, "component limit exceeded");
    assert!(check_listed_sources(200).is_ok());
    assert_eq!(invalid(&check_listed_sources(201).unwrap_err()).1, "source limit exceeded");
}

fn profile() -> ProjectProfileInput {
    ProjectProfileInput {
        summary: " Summary ".to_string(),
        architecture: "Layers".to_string(),
        development: "cargo test".to_string(),
        source_task_id: 1,
        source_task_version: 2,
        evidence: "task review".to_string(),
    }
}

#[test]
fn profiles_need_every_field_and_trim_their_texts() {
    let text = validate_profile_input(&profile()).unwrap();
    assert_eq!(text.summary, "Summary");
    let cases = [
        (ProjectProfileInput { summary: " ".to_string(), ..profile() }, "summary", "must contain 1..=4000 Unicode characters after trimming, without NUL"),
        (ProjectProfileInput { summary: "x".repeat(4001), ..profile() }, "summary", "must contain 1..=4000 Unicode characters after trimming, without NUL"),
        (ProjectProfileInput { architecture: "a\0".to_string(), ..profile() }, "architecture", "must contain 1..=8000 Unicode characters after trimming, without NUL"),
        (ProjectProfileInput { development: "".to_string(), ..profile() }, "development", "must contain 1..=8000 Unicode characters after trimming, without NUL"),
        (ProjectProfileInput { evidence: "\t".to_string(), ..profile() }, "evidence", "must contain 1..=4000 Unicode characters after trimming, without NUL"),
        (ProjectProfileInput { source_task_id: 0, ..profile() }, "sourceTaskId", "must be positive"),
        (ProjectProfileInput { source_task_version: -1, ..profile() }, "sourceTaskVersion", "must be positive"),
    ];
    for (candidate, field, reason) in cases {
        assert_eq!(invalid(&validate_profile_input(&candidate).unwrap_err()), (field.to_string(), reason.to_string()));
    }
    assert!(validate_profile_input(&ProjectProfileInput { summary: "界".repeat(4000), ..profile() }).is_ok());
}

#[test]
fn profile_writes_bind_the_project_revision_and_source_task() {
    assert_eq!(plan_profile_set(1, 3, 3, Some(1), 2, 2).unwrap(), 4);
    assert_eq!(plan_profile_set(1, 3, 2, Some(1), 2, 2).unwrap_err().body.code.as_str(), "VERSION_CONFLICT");
    assert_eq!(invalid(&plan_profile_set(1, 3, 3, Some(2), 2, 2).unwrap_err()).0, "sourceTaskId");
    assert_eq!(invalid(&plan_profile_set(1, 3, 3, None, 2, 2).unwrap_err()).1, "source task must currently belong to this project");
    let stale = plan_profile_set(1, 3, 3, Some(1), 3, 2).unwrap_err();
    assert!(matches!(stale.body.details, ErrorDetails::Version { expected: 2, current: 3 }));
}

#[test]
fn source_locations_are_recorded_text() {
    let location = SourceLocation::Directory("/srv/checkout");
    assert_eq!(location.directory(), "/srv/checkout");
}

fn content_json_len(content: &RuleContent) -> usize {
    let mut sources = Vec::new();
    for s in &content.sources {
        let mut m = serde_json::Map::new();
        m.insert("kind".to_string(), serde_json::Value::String(s.kind.clone()));
        m.insert("evidence".to_string(), serde_json::Value::String(s.evidence.clone()));
        m.insert("taskId".to_string(), s.task_id.map_or(serde_json::Value::Null, serde_json::Value::from));
        m.insert(
            "taskVersion".to_string(),
            s.task_version.map_or(serde_json::Value::Null, serde_json::Value::from),
        );
        sources.push(serde_json::Value::Object(m));
    }
    let mut m = serde_json::Map::new();
    m.insert("name".to_string(), serde_json::Value::String(content.name.clone()));
    m.insert("body".to_string(), serde_json::Value::String(content.body.clone()));
    m.insert("sources".to_string(), serde_json::Value::Array(sources));
    serde_json::to_vec(&serde_json::Value::Object(m)).unwrap().len()
}

fn check(rule: &RuleInput) -> Result<(), steward_application::error::AppError> {
    validate_rule(rule, content_json_len(&rule.content))
}

fn good_rule() -> RuleInput {
    RuleInput {
        scope: "global".to_string(),
        project_id: None,
        status: "active".to_string(),
        content_version: 1,
        content: RuleContent {
            name: "输出偏好".to_string(),
            body: "请用自由 Markdown\n- 完整保留内容".to_string(),
            sources: vec![],
        },
    }
}

fn with_sources(sources: Vec<RuleSource>) -> RuleInput {
    let mut v = good_rule();
    v.content.sources = sources;
    v
}

#[test]
fn invalid_input_and_corrupt_context_are_not_empty_successes() {
    let good = good_rule();
    assert!(check(&good).is_ok());
    let mut invalid_inputs = vec![];
    let mut v = good.clone();
    v.content_version = 2;
    invalid_inputs.push(v);
    let mut v = good.clone();
    v.project_id = Some(1);
    invalid_inputs.push(v);
    let mut v = good.clone();
    v.scope = "project".to_string();
    invalid_inputs.push(v);
    let mut v = good.clone();
    v.status = "unknown".to_string();
    invalid_inputs.push(v);
    let mut v = good.clone();
    v.content.body = "x".repeat(48001);
    invalid_inputs.push(v);
    let mut v = good.clone();
    v.content.name = "\0".to_string();
    invalid_inputs.push(v);
    invalid_inputs.push(with_sources(vec![RuleSource {
        kind: "explicit".to_string(),
        evidence: "e".to_string(),
        task_id: Some(1),
        task_version: None,
    }]));
    invalid_inputs.push(with_sources(vec![RuleSource {
        kind: "unknown".to_string(),
        evidence: "e".to_string(),
        task_id: None,
        task_version: None,
    }]));
    let long = RuleSource { kind: "explicit".to_string(), evidence: "x".repeat(3999), task_id: None, task_version: None };
    invalid_inputs.push(with_sources(vec![long; 33]));
    for value in invalid_inputs {
        assert!(check(&value).is_err());
    }
    let cited = with_sources(vec![RuleSource {
        kind: "explicit".to_string(),
        evidence: "e".to_string(),
        task_id: Some(1),
        task_version: Some(2),
    }]);
    assert!(check(&cited).is_ok());
    assert!(check_source_task_version(2, 1).is_err());
    let mut oversize = good.clone();
    oversize.content.body = "x".repeat(48000);
    oversize.content.sources = (0..5)
        .map(|i| RuleSource {
            kind: "explicit".to_string(),
            evidence: format!("{i}{}", "x".repeat(3998)),
            task_id: None,
            task_version: None,
        })
        .collect();
    let (field, _) = invalid(&check(&oversize).unwrap_err());
    assert_eq!(field, "content");
    let mut full = good.clone();
    full.content.body = format!("{}END", "x".repeat(47997));
    assert!(check(&full).is_ok());
    for version in [0, -1] {
        let mut stored = view(1, "active");
        stored.content_version = version;
        assert!(validate_rule_view(&stored, content_json_len(&stored.content)).is_err());
    }
}

#[test]
fn input_requires_all_fields_and_rejects_unknown_or_invalid_values() {
    let valid = ProjectProfileInput {
        summary: "  项目概要  ".to_string(),
        architecture: "\n架构说明\n".to_string(),
        development: " 开发说明 ".to_string(),
        source_task_id: 1,
        source_task_version: 1,
        evidence: " 来源任务中的公开结论 ".to_string(),
    };
    assert!(validate_profile_input(&valid).is_ok());
    for (field, limit) in [("summary", 4000), ("evidence", 4000), ("architecture", 8000), ("development", 8000)] {
        for text in [
            String::new(),
            " \n\t\u{3000}".to_string(),
            "\0abc".to_string(),
            "abc\0def".to_string(),
            "界".repeat(limit + 1),
        ] {
            let mut value = valid.clone();
            match field {
                "summary" => value.summary = text,
                "evidence" => value.evidence = text,
                "architecture" => value.architecture = text,
                _ => value.development = text,
            }
            let error = validate_profile_input(&value).unwrap_err();
            assert_eq!(error.body.code.as_str(), "INVALID_INPUT");
            assert_eq!(invalid(&error).0, field);
        }
    }
    for field in ["sourceTaskId", "sourceTaskVersion"] {
        for number in [0, -1] {
            let mut value = valid.clone();
            if field == "sourceTaskId" {
                value.source_task_id = number;
            } else {
                value.source_task_version = number;
            }
            assert_eq!(validate_profile_input(&value).unwrap_err().body.code.as_str(), "INVALID_INPUT");
        }
    }
    let mut value = valid.clone();
    value.summary = format!(" {} ", "界".repeat(4000));
    value.evidence = "证".repeat(4000);
    value.architecture = "构".repeat(8000);
    value.development = "🦀".repeat(8000);
    let text = validate_profile_input(&value).unwrap();
    assert_eq!(text.summary.chars().count(), 4000);
    assert_eq!(text.development.chars().count(), 8000);
}

#[test]
fn projects_are_unique_stable_and_separate_from_tasks() {
    for reference in ["1", "##1"] {
        assert!(matches!(parse_project_reference(reference).unwrap(), ProjectReference::Id(1)));
    }
    match parse_project_reference("MAILROOM").unwrap() {
        ProjectReference::Name(name) => assert_eq!(name, "MAILROOM"),
        other => panic!("{other:?}"),
    }
    assert_eq!(parse_project_reference("#1").unwrap_err().body.code.as_str(), "INVALID_INPUT");
    match parse_project_reference("Mail").unwrap() {
        ProjectReference::Name(name) => assert_eq!(name, "Mail"),
        other => panic!("{other:?}"),
    }
    assert!(validate_page(0, 1).is_ok());
    assert_eq!(next_after(&[1], true), Some(1));
    assert!(validate_page(1, 1).is_ok());
    for (after, limit) in [(-1, 10), (0, 0), (0, 201)] {
        assert_eq!(validate_page(after, limit).unwrap_err().body.code.as_str(), "INVALID_INPUT");
    }
}

#[test]
fn of_two_competing_rule_writes_only_the_first_succeeds() {
    let stored = view(2, "active");
    let first = resolve_rule_input(Some((9, 2)), Some(RuleInput { status: "candidate".to_string(), ..input() }), Some(&stored))
        .unwrap();
    let written = finish_rule_write(Some(&stored), first, false).unwrap();
    assert_eq!(written.revision, 3);
    let after = view(3, "candidate");
    assert!(check_rule_history_entry(9, 3, Some(&stored), &after).is_ok());
    let second = resolve_rule_input(Some((9, 2)), Some(input()), Some(&after)).unwrap_err();
    assert_eq!(second.body.code.as_str(), "VERSION_CONFLICT");
}

#[test]
fn project_rename_is_compare_and_swap_and_same_name_is_a_no_op() {
    assert_eq!(plan_project_rename(1, 1, 1, "Mailroom", "Mailroom").unwrap(), RenamePlan::Unchanged);
    assert_eq!(plan_project_rename(1, 1, 1, "Mailroom", "MAILROOM").unwrap(), RenamePlan::Rename { revision: 2 });
    let stale = plan_project_rename(1, 2, 1, "Mailroom", "Wrong").unwrap_err();
    assert_eq!(stale.body.code.as_str(), "VERSION_CONFLICT");
    assert!(matches!(stale.body.details, ErrorDetails::ProjectRevision { project_id: 1, expected: 1, current: 2 }));
    assert_eq!(plan_project_rename(1, i64::MAX, i64::MAX, "a", "b").unwrap_err().body.code.as_str(), "CONSTRAINT_VIOLATION");
}
