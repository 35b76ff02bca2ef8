//! Plan commands.
use attini::agent_cli::DEFAULT_MAX_TURNS;
use attini::plan::file::{parse, render_sealed, ACTIONS_END, CONFIRMATIONS_END};
use attini::plan::seal::{seal_hash, verify_seal};
use attini::plan::snapshot::parse_snapshot;
use attini::plan::{
    Confirmation, ParsedPlan, PlanActions, PlanCommandAction, PlanError, PlanPatchAction,
    MAX_ACTIONS, MAX_CONFIRMATIONS, PLAN_MAX_BYTES, RESERVED_CONFIRMATION_ID,
};
use attini::plan_cmd::{
    actions_display, authorize_run, build_run_message, check_output_name, check_plan, close_busy_text,
    close_session, create_prompt, extension, file_name, infer_session, make_snapshot, ok_plan,
    plan_agent_config, plan_file_name, plan_text, refuse_busy, refuse_run, snapshot_differs_text,
    snapshot_fits, PlanAgentOptions, PlanNames, EXIT_PLAN_INCOMPLETE, PLAN_NAME_TRIES,
};
use attini::sansio::permissions::Authorization;

#[test]
fn infer_session_parses_managed_path() {
    let p = ".attini/planner/plans/plan-1.md";
    assert_eq!(infer_session(p).as_deref(), Some("planner"));
    assert_eq!(infer_session("plans/plan-1.md"), None);
    assert_eq!(
        infer_session(".attini/planner/other/plan-1.md"),
        None
    );
}

#[test]
fn build_run_message_excludes_seal_and_all_ok() {
    let parsed = ParsedPlan {
        body_markdown: "# body".to_string(),
        actions: PlanActions {
            patches: vec![],
            commands: vec![],
        },
        confirmations: vec![
            Confirmation {
                id: RESERVED_CONFIRMATION_ID.to_string(),
                description: "all".to_string(),
                checked: true,
            },
            Confirmation {
                id: "migration".to_string(),
                description: "run migration".to_string(),
                checked: false,
            },
        ],
    };
    let msg = build_run_message(&parsed);
    assert!(msg.contains("migration — run migration"));
    assert!(!msg.contains("all-ok"));
    assert!(!msg.contains("ATTINI-CONFIRMATIONS"));
}

#[test]
fn plan_error_display_is_stable() {
    assert!(!PlanError::MissingAllOk.to_string().is_empty());
    assert!(!PlanError::DuplicateAllOk.to_string().is_empty());
}


fn actions() -> PlanActions {
    PlanActions {
        patches: vec![PlanPatchAction {
            id: "p1".to_string(),
            path: "src/a \"b\".rs".to_string(),
            description: "tab\there, line\nfeed".to_string(),
        }],
        commands: vec![PlanCommandAction {
            id: "c1".to_string(),
            argv: vec!["cargo".to_string(), "test".to_string()],
            description: "caf\u{e9} \u{1}".to_string(),
        }],
    }
}

fn items() -> Vec<Confirmation> {
    vec![
        Confirmation::unchecked(RESERVED_CONFIRMATION_ID, "everything"),
        Confirmation::unchecked("api", "Change the API \u{2014} carefully"),
        Confirmation::unchecked("empty", ""),
    ]
}

#[test]
fn approved_plans_pass_the_check() {
    let text = render_sealed("  # T\n\nbody  ", &actions(), &items()).unwrap();
    let report = check_plan("p.md", &text);
    assert_eq!(report.exit, EXIT_PLAN_INCOMPLETE);
    assert_eq!(
        report.err,
        vec![
            "attini: plan is not approved (confirmation incomplete); run `attini plan ok` to re-seal"
        ]
    );
    assert_eq!(report.out[0], "plan: p.md");
    assert_eq!(report.out[1], "format version: 1");
    assert_eq!(report.out[3], "seal: ok");
    assert_eq!(report.out[4], "confirmations: 3 total, 3 unchecked");
    assert_eq!(report.out[5], "unchecked: all-ok, api, empty");

    let approved = ok_plan(&text, true, &vec![]).unwrap();
    assert_eq!(approved.lines[0], "ok: 1 checked (all-ok)");
    assert!(verify_seal(&approved.text).unwrap());
    let parsed = parse(&approved.text).unwrap();
    assert_eq!(parsed.body_markdown, "# T\n\nbody");
    assert_eq!(parsed.actions, actions());
    let flags: Vec<bool> = parsed.confirmations.iter().map(|c| c.checked).collect();
    assert_eq!(flags, vec![true, false, false]);
    let report = check_plan("p.md", &approved.text);
    assert_eq!(report.exit, 0);
    assert!(report.err.is_empty());
    assert_eq!(refuse_run(&approved.text, &parsed), None);
}

#[test]
fn single_items_are_approved_by_id() {
    let text = render_sealed("b", &actions(), &items()).unwrap();
    let ids = vec!["empty".to_string(), "api".to_string()];
    let approved = ok_plan(&text, false, &ids).unwrap();
    assert_eq!(approved.lines[0], "ok: 2 checked (api, empty)");
    assert_eq!(check_plan("p.md", &approved.text).exit, 0);
    let ids = vec!["missing".to_string()];
    assert_eq!(
        ok_plan(&text, false, &ids),
        Err(PlanError::UnknownConfirmationId("missing".to_string()))
    );
}

#[test]
fn plans_that_do_not_fit_are_not_run() {
    let text = render_sealed("body", &actions(), &items()).unwrap();
    let parsed = parse(&text).unwrap();
    assert_eq!(
        refuse_run(&text, &parsed).unwrap(),
        "attini: plan confirmations incomplete; run `attini plan ok`"
    );
    let edited = text.replace("body", "other");
    assert_eq!(
        refuse_run(&edited, &parsed).unwrap(),
        "attini: plan seal mismatch; run `attini plan ok` to re-seal"
    );
    assert_eq!(
        check_plan("p.md", &edited).err,
        vec!["attini: plan is not approved (seal mismatch); run `attini plan ok` to re-seal"]
    );
    let report = check_plan("p.md", "nothing");
    assert_eq!(report.exit, 1);
    assert!(report.out.is_empty());
    assert_eq!(
        report.err,
        vec!["attini: plan is malformed: missing <!-- ATTINI-ACTIONS:BEGIN -->"]
    );
}

#[test]
fn each_plan_error_has_an_input() {
    let text = render_sealed("body", &actions(), &items()).unwrap();
    let broken = |from: &str, to: &str| parse(&text.replace(from, to)).err().unwrap();
    assert_eq!(seal_hash(b"\xff"), Err(PlanError::NotUtf8));
    let long = "x".repeat(PLAN_MAX_BYTES + 1);
    assert_eq!(parse(&long), Err(PlanError::TooLarge { size: PLAN_MAX_BYTES + 1 }));
    assert_eq!(broken(ACTIONS_END, ""), PlanError::MissingMarker(ACTIONS_END));
    assert_eq!(
        parse(&format!("{text}\n{ACTIONS_END}")),
        Err(PlanError::DuplicateMarker(ACTIONS_END))
    );
    assert_eq!(
        parse(&format!("{text}\nmore")),
        Err(PlanError::ContentAfterConfirmations)
    );
    assert_eq!(
        broken("body", CONFIRMATIONS_END),
        PlanError::MarkerInBody(CONFIRMATIONS_END)
    );
    assert_eq!(broken("```json", "```"), PlanError::ActionsBlockMissing);
    assert!(matches!(broken("\"version\":1", "\"version\":x"), PlanError::ActionsJsonParse(_)));
    assert!(matches!(broken("\"path\"", "\"where\""), PlanError::ActionsSchema(_)));
    assert_eq!(broken("ATTINI-CONFIRM: api", "ATTINI-CONFIRM: empty"), {
        PlanError::DuplicateConfirmationId("empty".to_string())
    });
    assert_eq!(broken("ATTINI-CONFIRM: api", "ATTINI-CONFIRM: all-ok"), PlanError::DuplicateAllOk);
    assert_eq!(broken("ATTINI-CONFIRM: all-ok", "ATTINI-CONFIRM: fine"), PlanError::MissingAllOk);
    assert!(matches!(broken("ATTINI-CONFIRM: api", "ATTINI-CONFIRM: A"), PlanError::InvalidId(_)));

    let mut many = items();
    for i in 0..MAX_CONFIRMATIONS {
        many.push(Confirmation::unchecked(&format!("i{i}"), "x"));
    }
    let text = render_sealed("body", &actions(), &many).unwrap();
    assert_eq!(
        parse(&text),
        Err(PlanError::TooManyConfirmations { count: MAX_CONFIRMATIONS + 1 })
    );

    let patch = |id: &str, path: &str, description: &str| PlanPatchAction {
        id: id.to_string(),
        path: path.to_string(),
        description: description.to_string(),
    };
    let command = |id: &str, argv: &[&str]| PlanCommandAction {
        id: id.to_string(),
        argv: argv.iter().map(|s| s.to_string()).collect(),
        description: "d".to_string(),
    };
    let check = |patches, commands| PlanActions { patches, commands }.validate().err().unwrap();
    assert_eq!(
        check(vec![patch("a", "x", "d"), patch("b", "x", "d")], vec![]),
        PlanError::DuplicatePatchPath("x".to_string())
    );
    assert!(matches!(
        check(vec![], vec![command("a", &["x"]), command("b", &["x"])]),
        PlanError::DuplicateCommandArgv(_)
    ));
    assert_eq!(
        check(vec![patch("a", "x", "d")], vec![command("a", &["x"])]),
        PlanError::DuplicateId("a".to_string())
    );
    assert!(matches!(check(vec![patch("a", "", "d")], vec![]), PlanError::EmptyField(_)));
    let many = (0..=MAX_ACTIONS)
        .map(|i| patch(&format!("a{i}"), &format!("p{i}"), "d"))
        .collect();
    assert!(matches!(check(many, vec![]), PlanError::TooManyActions { count: 129, .. }));
}

#[test]
fn actions_are_found_by_what_they_touch() {
    let all = actions();
    assert_eq!(all.patch_by_path("src/a \"b\".rs").unwrap().id, "p1");
    assert!(all.patch_by_path("src/a").is_none());
    let argv = vec!["cargo".to_string(), "test".to_string()];
    assert_eq!(all.command_by_argv(&argv).unwrap().id, "c1");
    assert!(all.command_by_argv(&vec!["cargo".to_string()]).is_none());
}

#[test]
fn snapshots_read_back() {
    let plan = ParsedPlan {
        body_markdown: "# \"quoted\"\n\tbody".to_string(),
        actions: actions(),
        confirmations: items(),
    };
    let snapshot = make_snapshot("/w/p.md", "00ff", plan);
    let text = snapshot.to_json();
    let back = parse_snapshot(&text).unwrap();
    assert_eq!(back, snapshot);
    let plan = ParsedPlan {
        body_markdown: "# \"quoted\"\n\tbody".to_string(),
        actions: actions(),
        confirmations: items(),
    };
    assert!(snapshot_fits(&back, "00ff", &plan));
    assert!(!snapshot_fits(&back, "00fe", &plan));
    let approved = back.into_approved_plan();
    assert_eq!(approved.plan_sha256, "00ff");
    assert_eq!(approved.actions, actions());
    assert!(approved.snapshot_path.is_empty());
    assert_eq!(
        parse_snapshot(&text.replace("\"snapshot_version\":1", "\"snapshot_version\":9")),
        Err(PlanError::UnsupportedVersion(9))
    );
    assert!(matches!(parse_snapshot("{"), Err(PlanError::ActionsJsonParse(_))));
    assert_eq!(
        snapshot_differs_text("s.json"),
        "snapshot s.json exists with different content (invariant violation)"
    );
}

#[test]
fn plan_paths_are_taken_apart() {
    assert_eq!(file_name("a/b.md").as_deref(), Some("b.md"));
    assert_eq!(file_name("a/.."), None);
    assert_eq!(extension("a/b.tar.md").as_deref(), Some("md"));
    assert_eq!(extension("a/.md"), None);
    assert_eq!(check_output_name("x.md"), Ok(()));
    assert_eq!(
        check_output_name("x.txt"),
        Err("plan output must have a .md extension".to_string())
    );
    assert_eq!(plan_file_name("1"), "plan-1.md");
    assert_eq!(close_session(".attini/s/plans/a.md"), Ok("s".to_string()));
    assert_eq!(
        close_session("a.md"),
        Err("a.md is not a managed plan under .attini/<SESSION>/plans/".to_string())
    );
    assert_eq!(
        close_session(".attini/s/plans/closed/a.md"),
        Err(".attini/s/plans/closed/a.md is already under a closed/ directory".to_string())
    );
    assert_eq!(close_busy_text("s"), "session \"s\" is busy; cannot close its plans");
    assert_eq!(refuse_busy("s", false, false), None);
    assert_eq!(
        refuse_busy("s", true, true).unwrap(),
        "session \"s\" is busy (LOCK held by a live process)"
    );
    assert_eq!(
        refuse_busy("s", false, true).unwrap(),
        "session \"s\" has a pending tool call; resolve it before plan run"
    );
}

#[test]
fn plan_files_must_be_short_text() {
    assert_eq!(plan_text("p.md", b"abc"), Ok("abc".to_string()));
    assert_eq!(
        plan_text("p.md", b"\xff"),
        Err("plan p.md is not valid UTF-8".to_string())
    );
    assert_eq!(
        plan_text("p.md", &vec![b'x'; PLAN_MAX_BYTES + 1]),
        Err("plan p.md exceeds 65536 bytes".to_string())
    );
}

#[test]
fn the_model_is_told_what_was_approved() {
    assert_eq!(
        actions_display(&actions()),
        "- patch p1: path \"src/a \\\"b\\\".rs\" \u{2014} tab\there, line\nfeed\n\
         - command c1: argv [\"cargo\", \"test\"] \u{2014} caf\u{e9} \u{1}\n"
    );
    assert!(create_prompt("do it").ends_with("\n\nUser request: do it"));
    let options = PlanAgentOptions {
        model: "m".to_string(),
        system_prompt: None,
        skill_name: Some("k".to_string()),
        show_reasoning: true,
        read_paths: vec!["/r".to_string()],
        turn_tool_call_limit: 3,
        tool_call_rate: None,
        session_tool_call_max: Some(9),
    };
    let config = plan_agent_config("s", "/w", &options, Authorization::PerTool);
    assert_eq!(config.authorization, Authorization::PerTool);
    assert_eq!(config.session_name, "s");
    assert_eq!(config.workspace_root, "/w");
    assert_eq!(config.max_turns, DEFAULT_MAX_TURNS);
    assert_eq!(config.extra_read_paths_cli, vec!["/r".to_string()]);
    assert_eq!(config.session_tool_call_max, Some(9));
}

#[test]
fn a_run_is_authorized_by_its_plan() {
    let parsed = ParsedPlan {
        body_markdown: "# body".to_string(),
        actions: PlanActions {
            patches: vec![],
            commands: vec![PlanCommandAction {
                id: "c1".to_string(),
                argv: vec!["make".to_string()],
                description: "Build".to_string(),
            }],
        },
        confirmations: vec![],
    };
    match authorize_run("abc", &parsed, "/w/.attini/s/snapshot.json") {
        Authorization::ApprovedPlan(plan) => {
            assert_eq!(plan.plan_sha256, "abc");
            assert_eq!(plan.actions, parsed.actions);
            assert_eq!(plan.snapshot_path, "/w/.attini/s/snapshot.json");
        }
        Authorization::PerTool => panic!("expected the plan"),
    }
}

#[test]
fn eight_names_are_tried_for_a_plan() {
    assert_eq!(PLAN_NAME_TRIES, 8);
    let mut names = PlanNames::new();
    for i in 0..8 {
        assert_eq!(names.propose(&format!("s{i}")), Ok(format!("plan-s{i}.md")));
    }
    for _ in 0..2 {
        assert_eq!(
            names.propose("s"),
            Err("could not generate a unique managed plan name".to_string())
        );
    }
}
