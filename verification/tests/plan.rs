//! Plans: their files, their seals and their confirmations.
use attini::plan::file::{parse, render_sealed, CONFIRMATIONS_BEGIN};
use attini::plan::calendar::{plan_timestamp_suffix, unix_to_ymdhms};
use attini::plan::seal::{hex, seal_hash, verify_seal};
use attini::plan::snapshot::PlanSnapshot;
use attini::plan::{
    apply_confirmations, confirmations_complete, validate_id, Confirmation, ParsedPlan,
    PlanActions, PlanCommandAction, PlanError, PlanPatchAction, ALL_OK_DESCRIPTION,
    PLAN_FORMAT_VERSION, PLAN_SNAPSHOT_VERSION, RESERVED_CONFIRMATION_ID,
};

fn sample_actions() -> PlanActions {
    PlanActions {
        patches: vec![PlanPatchAction {
            id: "update-parser".to_string(),
            path: "src/parser.rs".to_string(),
            description: "Update the parser".to_string(),
        }],
        commands: vec![PlanCommandAction {
            id: "run-tests".to_string(),
            argv: vec!["cargo".to_string(), "test".to_string()],
            description: "Run the test suite".to_string(),
        }],
    }
}

fn sample_confirmations() -> Vec<Confirmation> {
    vec![
        Confirmation::unchecked(RESERVED_CONFIRMATION_ID, ALL_OK_DESCRIPTION),
        Confirmation::unchecked("public-api", "Allow public API changes"),
    ]
}

#[test]
fn seal_hash_ignores_seal_marker_line() {
    let plan =
        render_sealed("# Plan\n\nbody", &sample_actions(), &sample_confirmations()).unwrap();
    let hash = seal_hash(plan.as_bytes()).unwrap();
    assert_eq!(hash.len(), 64);
    assert!(verify_seal(&plan).unwrap());
}

#[test]
fn seal_breaks_on_any_edit() {
    let plan =
        render_sealed("# Plan\n\nbody", &sample_actions(), &sample_confirmations()).unwrap();
    let edited = plan.replace("body", "body edited");
    assert!(!verify_seal(&edited).unwrap());
}

#[test]
fn render_parse_roundtrip() {
    let text = render_sealed(
        "# Plan\n\nSome body text.",
        &sample_actions(),
        &sample_confirmations(),
    )
    .unwrap();
    let parsed = parse(&text).unwrap();
    assert_eq!(parsed.body_markdown, "# Plan\n\nSome body text.");
    assert_eq!(parsed.actions, sample_actions());
    assert_eq!(parsed.confirmations, sample_confirmations());
}

#[test]
fn parse_rejects_marker_in_body() {
    let mut text =
        render_sealed("# Plan\n\nbody", &sample_actions(), &sample_confirmations()).unwrap();
    text = text.replace("body", &format!("body {CONFIRMATIONS_BEGIN}"));
    assert!(matches!(parse(&text), Err(PlanError::MarkerInBody(_))));
}

#[test]
fn parse_rejects_unknown_version() {
    let mut text =
        render_sealed("# Plan\n\nbody", &sample_actions(), &sample_confirmations()).unwrap();
    text = text.replace("\"version\":1", "\"version\":2");
    assert!(matches!(
        parse(&text),
        Err(PlanError::UnsupportedVersion(2))
    ));
}

#[test]
fn parse_rejects_invalid_id() {
    let actions = PlanActions {
        patches: vec![PlanPatchAction {
            id: "Bad-ID".to_string(),
            path: "src/x.rs".to_string(),
            description: "bad id".to_string(),
        }],
        ..PlanActions::default()
    };
    // Rendering validates the id, so the error surfaces there.
    assert!(matches!(
        render_sealed("# Plan", &actions, &sample_confirmations()),
        Err(PlanError::InvalidId(_))
    ));
}

#[test]
fn apply_confirmations_all_checks_all_ok_only() {
    let plan = ParsedPlan {
        body_markdown: String::new(),
        actions: PlanActions::default(),
        confirmations: sample_confirmations(),
    };
    let out = apply_confirmations(&plan, true, &vec![]).unwrap();
    assert!(out.iter().find(|c| c.id == "all-ok").unwrap().checked);
    assert!(!out.iter().find(|c| c.id == "public-api").unwrap().checked);
}

#[test]
fn apply_confirmations_item_ids_checks_those_only() {
    let plan = ParsedPlan {
        body_markdown: String::new(),
        actions: PlanActions::default(),
        confirmations: sample_confirmations(),
    };
    let out = apply_confirmations(&plan, false, &vec!["public-api".to_string()]).unwrap();
    assert!(!out.iter().find(|c| c.id == "all-ok").unwrap().checked);
    assert!(out.iter().find(|c| c.id == "public-api").unwrap().checked);
}

#[test]
fn apply_confirmations_unknown_id_errors() {
    let plan = ParsedPlan {
        body_markdown: String::new(),
        actions: PlanActions::default(),
        confirmations: sample_confirmations(),
    };
    assert!(matches!(
        apply_confirmations(&plan, false, &vec!["nope".to_string()]),
        Err(PlanError::UnknownConfirmationId(_))
    ));
}

#[test]
fn confirmations_complete_rules() {
    let all_ok_unchecked = vec![
        Confirmation::unchecked("all-ok", ALL_OK_DESCRIPTION),
        Confirmation::unchecked("a", "A"),
    ];
    assert!(!confirmations_complete(&all_ok_unchecked));
    let all_ok_checked = vec![
        Confirmation {
            id: "all-ok".into(),
            description: ALL_OK_DESCRIPTION.into(),
            checked: true,
        },
        Confirmation::unchecked("a", "A"),
    ];
    assert!(confirmations_complete(&all_ok_checked));
    let individual = vec![
        Confirmation::unchecked("all-ok", ALL_OK_DESCRIPTION),
        Confirmation {
            id: "a".into(),
            description: "A".into(),
            checked: true,
        },
    ];
    assert!(confirmations_complete(&individual));
    let none_checked = vec![
        Confirmation::unchecked("all-ok", ALL_OK_DESCRIPTION),
        Confirmation::unchecked("a", "A"),
    ];
    assert!(!confirmations_complete(&none_checked));
}

#[test]
fn id_validation_bounds() {
    assert!(validate_id("a", "id").is_ok());
    assert!(validate_id("abc-123", "id").is_ok());
    assert!(validate_id("A", "id").is_err());
    assert!(validate_id("1abc", "id").is_err());
    assert!(validate_id("a_", "id").is_err());
    assert!(validate_id("", "id").is_err());
    let long = format!("a{}", "b".repeat(63));
    assert!(validate_id(&long, "id").is_ok());
    let too_long = format!("a{}", "b".repeat(64));
    assert!(validate_id(&too_long, "id").is_err());
}

#[test]
fn snapshot_json_roundtrips_fields() {
    let plan_sha256 = "ab".repeat(32);
    let snapshot = PlanSnapshot {
        snapshot_version: PLAN_SNAPSHOT_VERSION,
        plan_format_version: PLAN_FORMAT_VERSION,
        plan_sha256: plan_sha256.clone(),
        canonical_path: "plans/plan-x.md".to_string(),
        body_markdown: "# body".to_string(),
        actions: sample_actions(),
        confirmations: sample_confirmations(),
    };
    let json = snapshot.to_json();
    assert!(json.contains("\"snapshot_version\":1"));
    assert!(json.contains(&format!("\"plan_sha256\":\"{plan_sha256}\"")));
    assert!(json.contains("\"canonical_path\":\"plans/plan-x.md\""));
}

#[test]
fn suffixes_name_the_moment() {
    assert_eq!(unix_to_ymdhms(0), (1970, 1, 1, 0, 0, 0));
    assert_eq!(unix_to_ymdhms(951_827_696), (2000, 2, 29, 12, 34, 56));
    assert_eq!(unix_to_ymdhms(4_107_542_399), (2100, 2, 28, 23, 59, 59));
    assert_eq!(unix_to_ymdhms(4_107_542_400), (2100, 3, 1, 0, 0, 0));
    assert_eq!(plan_timestamp_suffix(951_827_696, 0xab), "20000229-123456-0000ab");
    assert_eq!(plan_timestamp_suffix(0, 999_999_999), "19700101-000000-9ac9ff");
}

#[test]
fn hashes_are_written_in_hexadecimal() {
    assert_eq!(hex(&vec![0, 1, 0xab, 0xff]), "0001abff");
    assert_eq!(
        seal_hash(b"abc").unwrap(),
        "ba7816bf8f01cfea414140de5dae2223b00361a396177a9cb410ff61f20015ad"
    );
}

#[test]
fn a_rendered_plan_reads_back() {
    let mut actions = sample_actions();
    actions.patches[0].description = "a < b, `c` and <!-- a comment -->".to_string();
    actions.commands[0].argv.push("\"quoted\"\n<".to_string());
    let mut confirmations = sample_confirmations();
    confirmations[1].checked = true;
    let text = render_sealed("\n# Plan\n\nbody <x>\n", &actions, &confirmations).unwrap();
    let plan = parse(&text).unwrap();
    assert_eq!(plan.body_markdown, "# Plan\n\nbody <x>");
    assert_eq!(plan.actions, actions);
    assert_eq!(plan.confirmations, confirmations);
}
