use testcase_store::store::{
    assemble_suite, document_names, has_doc_extension, join_tags, listing, parse_testcase,
    save_target, summary, target_filename, DocEntry, StoreError,
};
use testcase_store::testcase::{validate_testcase, Step, TestCase, ValidationError};

fn step(action: &str, expected: &str) -> Step {
    Step { action: action.to_string(), expected: expected.to_string() }
}

fn case(id: &str, platform: &str, priority: &str) -> TestCase {
    TestCase {
        id: id.to_string(),
        name: "Login".to_string(),
        platform: platform.to_string(),
        priority: priority.to_string(),
        tags: vec!["smoke".to_string(), "auth".to_string()],
        author: "qa".to_string(),
        created_at: "2024-01-01".to_string(),
        linked_feature: None,
        last_run_status: None,
        description: "Logs in".to_string(),
        preconditions: None,
        steps: vec![step("Open app", "Login screen shown")],
    }
}

fn entry(file: &str, decoded: Result<TestCase, String>) -> DocEntry {
    DocEntry { file_name: file.to_string(), content: format!("text of {}", file), decoded }
}

#[test]
fn valid_case_passes() {
    assert_eq!(validate_testcase(&case("t1", "ios", "high")), Ok(()));
}

#[test]
fn priority_ignores_case() {
    assert_eq!(validate_testcase(&case("t1", "ios", "CRITICAL")), Ok(()));
    assert_eq!(validate_testcase(&case("t1", "ios", "Low")), Ok(()));
    assert_eq!(validate_testcase(&case("t1", "ios", "medium")), Ok(()));
}

#[test]
fn blank_fields_are_named() {
    let mut tc = case("  \t", "ios", "high");
    assert_eq!(validate_testcase(&tc), Err(ValidationError::EmptyId));
    assert_eq!(ValidationError::EmptyId.message(), "id must not be empty");
    tc.id = "t1".to_string();
    tc.name = String::new();
    assert_eq!(validate_testcase(&tc), Err(ValidationError::EmptyName));
    assert_eq!(ValidationError::EmptyName.message(), "name must not be empty");
    tc.name = "n".to_string();
    tc.platform = " ".to_string();
    assert_eq!(validate_testcase(&tc), Err(ValidationError::EmptyPlatform));
    assert_eq!(ValidationError::EmptyPlatform.message(), "platform must not be empty");
    tc.platform = "android".to_string();
    tc.description = "\n".to_string();
    assert_eq!(validate_testcase(&tc), Err(ValidationError::EmptyDescription));
    assert_eq!(ValidationError::EmptyDescription.message(), "description must not be empty");
}

#[test]
fn first_blank_field_wins() {
    let mut tc = case("", "", "nope");
    tc.name = String::new();
    assert_eq!(validate_testcase(&tc), Err(ValidationError::EmptyId));
}

#[test]
fn unicode_whitespace_is_blank() {
    let tc = case("\u{3000}\u{a0}", "ios", "high");
    assert_eq!(validate_testcase(&tc), Err(ValidationError::EmptyId));
    let tc = case("x\u{3000}", "ios", "high");
    assert_eq!(validate_testcase(&tc), Ok(()));
}

#[test]
fn unknown_priority_lists_allowed_set() {
    let tc = case("t1", "ios", "urgent");
    assert_eq!(validate_testcase(&tc), Err(ValidationError::InvalidPriority));
    assert_eq!(
        ValidationError::InvalidPriority.message(),
        "priority must be one of: critical, high, medium, low"
    );
    assert_eq!(validate_testcase(&case("t1", "ios", " high")), Err(ValidationError::InvalidPriority));
}

#[test]
fn zero_steps_rejected() {
    let mut tc = case("t1", "ios", "high");
    tc.steps = Vec::new();
    assert_eq!(validate_testcase(&tc), Err(ValidationError::NoSteps));
    assert_eq!(ValidationError::NoSteps.message(), "steps must not be empty");
}

#[test]
fn blank_action_reports_step_one() {
    let mut tc = case("t1", "ios", "high");
    tc.steps = vec![step("", "shown")];
    assert_eq!(validate_testcase(&tc), Err(ValidationError::EmptyAction(1)));
    assert_eq!(ValidationError::EmptyAction(1).message(), "Step 1: action must not be empty");
}

#[test]
fn blank_expected_reports_its_step() {
    let mut tc = case("t1", "ios", "high");
    tc.steps = vec![step("a", "b"), step("c", "  ")];
    assert_eq!(validate_testcase(&tc), Err(ValidationError::EmptyExpected(2)));
    assert_eq!(
        ValidationError::EmptyExpected(12).message(),
        "Step 12: expected must not be empty"
    );
}

#[test]
fn parse_maps_errors() {
    match parse_testcase(Err("bad yaml".to_string())) {
        Err(StoreError::Parse(m)) => assert_eq!(m, "bad yaml"),
        other => panic!("unexpected {:?}", other),
    }
    match parse_testcase(Ok(case("", "ios", "high"))) {
        Err(StoreError::Validation(e)) => assert_eq!(e, ValidationError::EmptyId),
        other => panic!("unexpected {:?}", other),
    }
    let tc = parse_testcase(Ok(case("t9", "ios", "high"))).unwrap();
    assert_eq!(tc.id, "t9");
}

#[test]
fn derived_file_names() {
    assert_eq!(target_filename("login"), "login.yaml");
    assert_eq!(target_filename("login.yaml"), "login.yaml");
    assert_eq!(target_filename("login.yml"), "login.yml");
    assert_eq!(target_filename("login.json"), "login.json.yaml");
    assert_eq!(target_filename(""), ".yaml");
    assert_eq!(target_filename(&target_filename("x")), "x.yaml");
    assert!(has_doc_extension("a.yml"));
    assert!(has_doc_extension(".yaml"));
    assert!(!has_doc_extension("a.yaml.bak"));
    assert!(!has_doc_extension("yml"));
}

#[test]
fn save_target_checks_first() {
    assert_eq!(save_target("login", Ok(case("t1", "ios", "high"))).unwrap(), "login.yaml");
    assert!(matches!(
        save_target("login", Ok(case("t1", "ios", "soon"))),
        Err(StoreError::Validation(ValidationError::InvalidPriority))
    ));
    assert!(matches!(save_target("login", Err("x".to_string())), Err(StoreError::Parse(_))));
}

#[test]
fn document_names_filtered_and_sorted() {
    let names = vec![
        "c.yaml".to_string(),
        "readme.md".to_string(),
        "a.yml".to_string(),
        "B.yaml".to_string(),
        "b.yaml".to_string(),
    ];
    assert_eq!(document_names(&names), vec!["B.yaml", "a.yml", "b.yaml", "c.yaml"]);
    assert!(document_names(&Vec::new()).is_empty());
}

#[test]
fn summary_line_format() {
    assert_eq!(summary(&case("t1", "ios", "high")), "  t1 | Login | ios | high | [smoke, auth]");
    let mut tc = case("t2", "android", "low");
    tc.tags = Vec::new();
    assert_eq!(summary(&tc), "  t2 | Login | android | low | []");
    assert_eq!(join_tags(&vec!["one".to_string()]), "one");
}

#[test]
fn listing_empty_directory() {
    assert!(listing(&Vec::new(), None).is_empty());
    assert!(listing(&Vec::new(), Some("ios")).is_empty());
}

#[test]
fn listing_platform_filter_ignores_case() {
    let entries = vec![
        entry("a.yaml", Ok(case("t1", "ios", "high"))),
        entry("b.yaml", Ok(case("t2", "android", "low"))),
        entry("c.yaml", Ok(case("t3", "IOS", "medium"))),
    ];
    let lines = listing(&entries, Some("iOS"));
    assert_eq!(
        lines,
        vec![
            "  t1 | Login | ios | high | [smoke, auth]",
            "  t3 | Login | IOS | medium | [smoke, auth]",
        ]
    );
    assert_eq!(listing(&entries, Some("ANDROID")).len(), 1);
    assert_eq!(listing(&entries, None).len(), 3);
    assert!(listing(&entries, Some("web")).is_empty());
}

#[test]
fn listing_skips_bad_documents() {
    let entries = vec![
        entry("a.yaml", Err("not yaml".to_string())),
        entry("b.yaml", Ok(case("", "ios", "high"))),
        entry("c.yaml", Ok(case("t3", "ios", "high"))),
    ];
    assert_eq!(listing(&entries, None), vec!["  t3 | Login | ios | high | [smoke, auth]"]);
}

#[test]
fn suite_keeps_requested_order() {
    let entries = vec![
        entry("t1.yaml", Ok(case("t1", "ios", "high"))),
        entry("t2.yaml", Ok(case("t2", "ios", "high"))),
        entry("t3.yaml", Ok(case("t3", "ios", "high"))),
    ];
    let suite = assemble_suite(&vec!["t1".to_string(), "t3".to_string()], &entries);
    assert_eq!(suite.len(), 2);
    assert_eq!(suite[0].id, "t1");
    assert_eq!(suite[0].name, "t1.yaml");
    assert_eq!(suite[0].content, "text of t1.yaml");
    assert_eq!(suite[1].id, "t3");
    let suite = assemble_suite(&vec!["t3".to_string(), "zz".to_string(), "t1".to_string()], &entries);
    let ids: Vec<&str> = suite.iter().map(|e| e.id.as_str()).collect();
    assert_eq!(ids, vec!["t3", "t1"]);
    assert!(assemble_suite(&vec!["none".to_string()], &entries).is_empty());
}

#[test]
fn suite_takes_first_valid_match() {
    let entries = vec![
        entry("a.yaml", Ok(case("t1", "ios", "bogus"))),
        entry("b.yaml", Err("broken".to_string())),
        entry("c.yaml", Ok(case("t1", "ios", "high"))),
        entry("d.yaml", Ok(case("t1", "android", "low"))),
    ];
    let suite = assemble_suite(&vec!["t1".to_string()], &entries);
    assert_eq!(suite.len(), 1);
    assert_eq!(suite[0].name, "c.yaml");
}
