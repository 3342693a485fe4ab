use opsx_build::agenda::{discover, AgendaAssignment, AgendaFile};
use opsx_build::backend::{SessionId, SessionMode};
use opsx_build::checkpoint::{check_old_stage, migrate_v2, open_checkpoint, Opened};
use opsx_build::claude_agent::ClaudeLauncher;
use opsx_build::frontier::validate_terminal_remediation_assignment;
use opsx_build::launcher::{model_stage_title, AgentLauncher};
use opsx_build::names::Harness;
use opsx_build::openspec::{archive_is_absent, ChangeSnapshot};
use opsx_build::planning::validate_change_name;
use opsx_build::prompts::{
    archive_subject, campaign_subject, completion_commit_message, frontier_replan_prompt,
    proposal_commit_message, proposal_postcondition_repair, terminal_review_prompt, with_direction,
    with_sidecar_context, BOOTSTRAP_APPLY_CONTEXT, BOOTSTRAP_PROPOSAL_CONTEXT,
};
use opsx_build::stage::{
    displayed_stage_position, stage_after_propose, stage_uses_frontier_model, Stage,
};
use opsx_build::stages::{planning_session, record_planning_session};
use opsx_build::state::{
    is_terminal_gate, needs_terminal_review, queue_direction, uses_terminal_frontier,
    CompletedIteration, RunState, TooLargeOutcome, STATE_SCHEMA_VERSION,
};
use opsx_build::workflow::{campaign_limit_resume_command, single_advance_continuation_command};

fn harness() -> Harness {
    Harness { title: "Agent".to_owned(), name: "agent".to_owned() }
}

fn no_changes() -> ChangeSnapshot {
    ChangeSnapshot { changes: vec![] }
}

fn slice(path: &str, change: &str, title: &str, content: &str) -> AgendaAssignment {
    AgendaAssignment {
        path: path.to_owned(),
        change: change.to_owned(),
        title: title.to_owned(),
        content: content.to_owned(),
    }
}

#[test]
fn direction_is_injected_as_iteration_guidance() {
    let prompt = with_direction("apply slice-m", Some("keep the AST unchanged"));
    assert!(prompt.contains("User direction for this iteration"));
    assert!(prompt.contains("keep the AST unchanged"));
}

#[test]
fn campaign_subject_preserves_the_goal_and_bounds_one_iteration() {
    let mut state =
        RunState::new_campaign("finish the compiler".to_owned(), no_changes(), Some(20));
    state.campaign.as_mut().unwrap().iteration = 7;
    let subject = campaign_subject(&state, "", &harness());
    assert!(subject.contains("finish the compiler"));
    assert!(subject.contains("campaign iteration 7"));
    assert!(subject.contains("exactly one coherent, bounded remaining slice"));
    assert!(subject.contains("return DONE"));
}

#[test]
fn bootstrap_propose_defers_agenda_files_to_apply() {
    assert!(BOOTSTRAP_PROPOSAL_CONTEXT.contains("only that change's normal OpenSpec artifacts"));
    assert!(BOOTSTRAP_PROPOSAL_CONTEXT
        .contains("Do not create or modify `automation/slices/README.md`"));
    assert!(BOOTSTRAP_PROPOSAL_CONTEXT.contains("Apply stage exclusively owns those deliverables"));
    assert!(BOOTSTRAP_PROPOSAL_CONTEXT.contains("so a fresh Apply session can materialize them"));
}

#[test]
fn bootstrap_apply_self_checks_the_agenda_contract() {
    assert!(BOOTSTRAP_APPLY_CONTEXT.contains("Before reporting READY"));
    assert!(BOOTSTRAP_APPLY_CONTEXT.contains("every structural requirement"));
    assert!(BOOTSTRAP_APPLY_CONTEXT.contains("correct any omission within this Apply stage"));
}

#[test]
fn agenda_subject_assigns_one_exact_change_without_exploration() {
    let mut state = RunState::new("advance".to_owned(), no_changes());
    state.agenda = Some(slice(
        "automation/slices/002-test-harness.md",
        "002-test-harness",
        "002 - Test harness",
        "# 002 - Test harness\n\n## Objective\n\nBuild it.",
    ));
    let subject = campaign_subject(&state, "", &harness());
    assert!(subject.contains("exact name `002-test-harness`"));
    assert!(subject.contains("automation/slices/002-test-harness.md"));
    assert!(subject.contains("## Objective"));
    assert!(subject.contains("OpenSpec planning artifacts"));
    assert!(subject.contains("This Propose stage is planning-only"));
    assert!(subject.contains("do not implement production code"));
    assert!(subject.contains("or invoke an Apply or implementation skill"));
    assert!(!subject.contains("by implementing the exact ordered agenda"));
    assert!(subject.contains("Do not select, create, or modify a different slice"));
}

#[test]
fn prescribed_change_subject_forbids_automatic_renaming() {
    let mut state = RunState::new("support remote URI path prefixes".to_owned(), no_changes());
    state.change = Some("remote-path-prefix".to_owned());

    let subject = campaign_subject(&state, "", &harness());

    assert!(subject.contains("support remote URI path prefixes"));
    assert!(subject.contains("exact OpenSpec change name `remote-path-prefix`"));
    assert!(subject.contains("do not select or modify a differently named change"));
}

#[test]
fn sidecar_subject_keeps_planning_external_and_product_inspection_targeted() {
    let mut state =
        RunState::new("adjust bounded Ceph recovery behaviour".to_owned(), no_changes());
    state.change = Some("ceph-recovery-fix".to_owned());
    state.stage = Stage::Propose;
    state.product_repo = Some("/src/ceph".to_owned());
    state.sidecar_store = Some("opsx-ceph-demo".to_owned());
    state.local_only = true;

    let subject = campaign_subject(&state, "", &harness());
    assert!(subject.contains("exact bounded brownfield change `ceph-recovery-fix`"));
    assert!(subject.contains("external planning repository"));
    assert!(subject.contains("product repository is `/src/ceph`"));
    assert!(subject.contains("do not attempt to understand or survey the entire"));
    assert!(!subject.contains("During exploration"));

    let apply = with_sidecar_context(&state, "apply it", &harness());
    assert!(apply.contains("current working directory contains OpenSpec planning state only"));
    assert!(apply.contains("Make product code/test/documentation edits only there"));
    assert!(apply.contains("Keep OpenSpec artifacts"));

    let kept = state.clone();
    assert_eq!(kept.stage, Stage::Propose);
    assert_eq!(kept.product_repo.as_deref(), Some("/src/ceph"));
    assert_eq!(kept.sidecar_store.as_deref(), Some("opsx-ceph-demo"));
    assert!(kept.local_only);
}

#[test]
fn frontier_prompt_preserves_the_parent_and_defines_hierarchical_children() {
    let assignment = slice(
        "automation/slices/0009-conditionals.md",
        "0009-conditionals",
        "0009 - Conditionals",
        "# 0009 - Conditionals\n\nImplement all conditionals.",
    );
    let outcome = TooLargeOutcome {
        stage: Stage::Apply,
        summary: "frontend and lowering are too broad together".to_owned(),
    };

    let prompt = frontier_replan_prompt(&assignment, &outcome, &harness());

    assert!(prompt.contains("Keep its current filename"));
    assert!(prompt.contains("0009.1-next-part.md"));
    assert!(prompt.contains("0009-1-next-part"));
    assert!(prompt.contains("Modify only files under `automation/slices/`"));
    assert!(prompt.contains("do not implement the slice"));
    assert!(prompt.contains("frontend and lowering are too broad together"));
}

#[test]
fn terminal_review_preserves_9999_and_inserts_remediation_before_it() {
    let assignment = slice(
        "automation/slices/9999-project-acceptance.md",
        "9999-project-acceptance",
        "Project acceptance",
        "# Project acceptance\n\n## Objective\n\nAccept it.",
    );

    let ready = terminal_review_prompt(&assignment, None, &harness());
    assert!(ready.contains("complete goal in `openspec/config.yaml`"));
    assert!(ready
        .contains("leave the repository, index, working tree, and Git history exactly unchanged"));
    assert!(ready.contains("return READY"));
    assert!(ready.contains("preserve `automation/slices/9999-project-acceptance.md` byte-for-byte"));
    assert!(ready.contains("sort after every existing nonterminal slice and before `9999`"));
    assert!(ready.contains("Modify only files under `automation/slices/`"));

    let failure = TooLargeOutcome {
        stage: Stage::Verify,
        summary: "TLS hostname rejection is not implemented".to_owned(),
    };
    let remediation = terminal_review_prompt(&assignment, Some(&failure), &harness());
    assert!(remediation.contains("READY is not a valid result"));
    assert!(remediation.contains("TLS hostname rejection is not implemented"));
}

#[test]
fn terminal_gate_requires_one_durable_frontier_review() {
    let mut state = RunState::new_campaign("advance".to_owned(), no_changes(), Some(20));
    state.stage = Stage::Propose;
    state.change = Some("9999-project-acceptance".to_owned());
    state.agenda = Some(slice(
        "automation/slices/9999-project-acceptance.md",
        "9999-project-acceptance",
        "Project acceptance",
        "# Project acceptance\n",
    ));

    assert!(is_terminal_gate(&state));
    assert!(needs_terminal_review(&state));
    assert!(uses_terminal_frontier(&state, true));
    assert!(!uses_terminal_frontier(&state, false));
    state.terminal_review_complete = true;
    assert!(!needs_terminal_review(&state));
    state.local_only = true;
    assert!(!uses_terminal_frontier(&state, true));

    let kept = state.clone();
    assert!(kept.terminal_review_complete);
    assert_eq!(kept.terminal_remediations, 0);
}

#[test]
fn terminal_acceptance_keeps_model_work_on_frontier() {
    for stage in [Stage::Propose, Stage::Apply, Stage::Verify, Stage::Repair] {
        assert!(stage_uses_frontier_model(stage, false, true));
    }
    for stage in [
        Stage::ProposalCommit,
        Stage::Archive,
        Stage::FinalCommit,
        Stage::Complete,
        Stage::Done,
    ] {
        assert!(!stage_uses_frontier_model(stage, false, true));
    }
    assert!(!stage_uses_frontier_model(Stage::Apply, false, false));
    assert!(stage_uses_frontier_model(Stage::Apply, true, false));
}

#[test]
fn stage_title_identifies_role_and_connection() {
    let mut launcher = ClaudeLauncher::parse("agent", None, None, None, None, &harness()).unwrap();
    launcher.connection_name = Some("anthropic".to_owned());
    let agent_launcher = AgentLauncher::Claude(launcher);

    assert_eq!(
        model_stage_title("Apply", "worker", &agent_launcher, &harness()),
        "Apply · worker (anthropic, agent)"
    );
}

#[test]
fn terminal_remediation_must_be_committed_and_structurally_executable() {
    let remediation = slice(
        "automation/slices/0014-missing-tls-case.md",
        "0014-missing-tls-case",
        "Missing TLS case",
        "# Missing TLS case\n\n## Objective\nAdd it.\n\n## Prerequisites\nEarlier slices.\n\n## Acceptance Criteria\n- Works.\n\n## Required Tests\n- End to end.\n",
    );
    let committed = vec![
        remediation.path.clone(),
        "automation/slices/README.md".to_owned(),
    ];
    assert!(validate_terminal_remediation_assignment(&remediation, &committed).is_ok());

    let mut malformed = remediation.clone();
    malformed.content = "# Missing TLS case\n\n## Objective\nAdd it.\n".to_owned();
    assert!(validate_terminal_remediation_assignment(&malformed, &committed).is_err());

    let uncommitted = vec!["automation/slices/README.md".to_owned()];
    assert!(validate_terminal_remediation_assignment(&remediation, &uncommitted).is_err());
}

#[test]
fn proposal_postcondition_repair_preserves_the_campaign_rubric() {
    let prompt = proposal_postcondition_repair("next slice", "No change exists.");
    assert!(prompt.starts_with("next slice"));
    assert!(prompt.contains("same planning session"));
    assert!(prompt.contains("do not merely describe"));
    assert!(prompt.contains("isPlanningComplete: true"));
    assert!(prompt.contains("do not create a duplicate change"));
    assert!(prompt.contains("return TOO_LARGE"));
}

#[test]
fn direction_reopens_repair_after_implementation() {
    let mut state = RunState::new("build it".to_owned(), no_changes());
    state.change = Some("build-it".to_owned());
    state.stage = Stage::Archive;
    state.pending_repair = Some("obsolete verifier result".to_owned());
    queue_direction(&mut state, "keep the AST unchanged");
    assert_eq!(state.stage, Stage::Repair);
    assert_eq!(
        state.pending_direction.as_deref(),
        Some("keep the AST unchanged")
    );
    assert!(state.pending_repair.is_none());

    state.consume_direction();
    assert!(state.pending_direction.is_none());
}

#[test]
fn existing_change_starts_at_proposal_commit() {
    let state = RunState::continue_existing("test-infrastructure".to_owned(), no_changes());
    assert_eq!(state.change.as_deref(), Some("test-infrastructure"));
    assert_eq!(state.stage, Stage::ProposalCommit);
    assert!(state.planning_session.is_none());
}

#[test]
fn planning_resume_starts_fresh_when_the_backend_changes() {
    let mut state = RunState::new("build it".to_owned(), no_changes());
    state.planning_session = Some(SessionId::new("agent-session"));
    state.planning_backend = Some("Agent".to_owned());

    let session = planning_session(&state, "OpenCode", "fresh-session", &harness());
    record_planning_session(&mut state, &session, "OpenCode");

    assert!(matches!(&session, SessionMode::New { .. }));
    assert_ne!(session.id().as_str(), "agent-session");
    assert_eq!(state.planning_backend.as_deref(), Some("OpenCode"));
}

#[test]
fn planning_resume_preserves_an_existing_session_with_the_same_backend() {
    let mut state = RunState::new("build it".to_owned(), no_changes());
    state.planning_session = Some(SessionId::new("agent-session"));

    let session = planning_session(&state, "Agent", "fresh-session", &harness());

    assert!(matches!(session, SessionMode::Resume { id } if id.as_str() == "agent-session"));
}

#[test]
fn planning_checkpoint_has_actual_session_before_an_interrupted_turn() {
    for saved_session in [None, Some(SessionId::new("stale-thread"))] {
        let mut state = RunState::new_campaign("advance".to_owned(), no_changes(), Some(10));
        state.stage = Stage::Propose;
        state.change = Some("0001-pinned-contract-build".to_owned());
        state.planning_session = saved_session;
        state.planning_backend = Some("Codex".to_owned());

        let actual = SessionMode::Resume { id: SessionId::new("actual-thread") };
        record_planning_session(&mut state, &actual, "Codex");
        assert_eq!(state.planning_session.as_ref().unwrap().as_str(), "actual-thread");
        assert_eq!(state.planning_backend.as_deref(), Some("Codex"));
        assert_eq!(state.stage, Stage::Propose);
        assert_eq!(state.change.as_deref(), Some("0001-pinned-contract-build"));
    }
}

#[test]
fn yolo_skips_the_proposal_commit_stage() {
    assert_eq!(stage_after_propose(false), Stage::ProposalCommit);
    assert_eq!(stage_after_propose(true), Stage::Apply);
}

#[test]
fn yolo_stage_numbers_omit_the_proposal_commit() {
    assert_eq!(displayed_stage_position(Stage::Propose, true, false, true), (1, 5));
    assert_eq!(displayed_stage_position(Stage::Apply, true, false, true), (2, 5));
    assert_eq!(displayed_stage_position(Stage::FinalCommit, true, false, true), (5, 5));
    assert_eq!(displayed_stage_position(Stage::FinalCommit, true, false, false), (6, 6));
}

#[test]
fn migrates_existing_schema_two_checkpoint() {
    let opened = open_checkpoint(
        "last-run.json",
        r#"{
            "schema_version": 2,
            "request": "continue slice m",
            "change": "slice-m",
            "stage": "repair",
            "verify_retries": 2,
            "proposal_commit": "abc123",
            "final_commit": null,
            "before_changes": {"changes": {}},
            "pending_repair": "fix lowering",
            "sessions": [{
                "stage": "explore+propose",
                "id": "00000000-0000-0000-0000-000000000000",
                "name": "slice-m"
            }]
        }"#,
    )
    .unwrap();
    let value = match opened {
        Opened::Old(value) => value,
        Opened::Current(_) => panic!("expected a checkpoint of the second format"),
    };
    let state = migrate_v2(&value, Stage::Repair, no_changes(), &harness()).unwrap();
    assert_eq!(state.schema_version, STATE_SCHEMA_VERSION);
    assert_eq!(state.stage, Stage::Repair);
    assert_eq!(state.change.as_deref(), Some("slice-m"));
    assert_eq!(
        state.planning_session.as_ref().map(|id| id.as_str().to_owned()),
        Some(uuid::Uuid::nil().to_string())
    );
    assert_eq!(state.pending_repair.as_deref(), Some("fix lowering"));
    assert_eq!(state.verify_retries, 2);
    assert_eq!(state.proposal_head.as_deref(), Some("abc123"));
    assert_eq!(state.final_head, None);
}

#[test]
fn migrates_schema_three_checkpoint_without_an_agenda_assignment() {
    let opened = open_checkpoint(
        "last-run.json",
        r#"{"schema_version": 3, "request": "build it", "stage": "explore"}"#,
    )
    .unwrap();
    let text = match opened {
        Opened::Current(text) => text,
        Opened::Old(_) => panic!("expected a checkpoint of the current format"),
    };
    let value: serde_json::Value = serde_json::from_str(&text).unwrap();
    assert_eq!(value["schema_version"], STATE_SCHEMA_VERSION);
    assert!(value["agenda"].is_null());
    assert_eq!(value["stage"], "explore");
}

#[test]
fn rejects_blocked_legacy_checkpoint_without_guessing_previous_stage() {
    let opened = open_checkpoint(
        "last-run.json",
        r#"{
            "schema_version": 2,
            "request": "build",
            "stage": "blocked"
        }"#,
    )
    .unwrap();
    let value = match opened {
        Opened::Old(value) => value,
        Opened::Current(_) => panic!("expected a checkpoint of the second format"),
    };
    assert!(check_old_stage(&value).is_err());
    assert!(migrate_v2(&value, Stage::Explore, no_changes(), &harness()).is_err());
}

#[test]
fn validates_change_names() {
    assert!(validate_change_name("slice-m").is_ok());
    assert!(validate_change_name("../slice-m").is_err());
}

#[test]
fn absent_active_change_is_durable_archive_evidence() {
    let changes = ChangeSnapshot {
        changes: vec![("other-change".to_owned(), "null".to_owned())],
    };
    assert!(archive_is_absent(&changes, "slice-n"));
    assert!(!archive_is_absent(&changes, "other-change"));
}

#[test]
fn archive_prompt_pre_authorizes_normal_spec_sync() {
    let subject = archive_subject("0009-https-tls-forwarding-valid");

    assert!(subject.contains("choose `Sync now (recommended)`"));
    assert!(subject.contains("choose `Archive now`"));
    assert!(subject.contains("do not treat that confirmation as a BLOCKED condition"));
}

#[test]
fn milestone_commit_prompts_require_useful_openspec_summaries() {
    let proposal = proposal_commit_message("0009-https-tls-forwarding-valid");
    assert!(proposal.contains("subject exactly `openspec: propose"));
    assert!(proposal.contains("intended observable change and why"));
    assert!(proposal.contains("Use imperative mood"));
    assert!(proposal.contains("hard-wrap every body line at 72 columns or fewer"));
    assert!(proposal.contains("Do not write one dense summary paragraph"));
    assert!(proposal.contains("file or task inventories"));

    let completion = completion_commit_message("0009-https-tls-forwarding-valid");
    assert!(completion.contains("subject exactly `openspec: complete"));
    assert!(completion.contains("delivered observable behavior"));
    assert!(completion.contains("validation that actually ran"));
    assert!(completion.contains("Separate paragraphs with a blank line"));
    assert!(completion.contains("checks that did not run"));
}

#[test]
fn milestone_commit_prompts_do_not_block_on_committed_message_formatting() {
    for prompt in [
        proposal_commit_message("slice-formatting"),
        completion_commit_message("slice-formatting"),
    ] {
        assert!(
            prompt.contains("Check the subject and body formatting before creating each commit")
        );
        assert!(prompt.contains("Once all relevant work is committed, message formatting alone is not a BLOCKED condition"));
        assert!(prompt.contains("preserve the existing commits"));
        assert!(prompt.contains("report READY without requesting permission to amend or creating a replacement commit"));
    }
}

#[test]
fn campaign_limit_resume_command_raises_the_cumulative_ceiling() {
    assert_eq!(
        campaign_limit_resume_command("/tmp/compiler project", 5),
        "opsx-build --repo '/tmp/compiler project' --resume --loop --max-iterations 10"
    );
}

#[test]
fn single_advance_completion_points_to_remaining_campaign_work() {
    let repo = "/tmp/opsx-build single advance";
    let files = vec![
        AgendaFile { name: "0001-first.md".to_owned(), content: "# First\n".to_owned() },
        AgendaFile { name: "0002-second.md".to_owned(), content: "# Second\n".to_owned() },
    ];
    let archived = vec!["0001-first".to_owned()];
    let state = RunState::new("advance".to_owned(), no_changes());
    let offered = discover(&files, &archived, &vec![]);

    assert_eq!(
        single_advance_continuation_command(repo, &state, &offered),
        Some("opsx-build --repo '/tmp/opsx-build single advance' --loop advance".to_owned())
    );
    let campaign = RunState::new_campaign("advance".to_owned(), no_changes(), None);
    assert_eq!(single_advance_continuation_command(repo, &campaign, &offered), None);

    let all = vec!["0001-first".to_owned(), "0002-second".to_owned()];
    let over = discover(&files, &all, &vec![]);
    assert_eq!(single_advance_continuation_command(repo, &state, &over), None);
}

#[test]
fn campaign_checkpoint_keeps_completed_iterations() {
    let mut state =
        RunState::new_campaign("finish the compiler".to_owned(), no_changes(), Some(10));
    state.campaign.as_mut().unwrap().completed.push(CompletedIteration {
        iteration: 1,
        change: "slice-a".to_owned(),
        proposal_head: Some("proposal".to_owned()),
        final_head: Some("complete".to_owned()),
        elapsed_seconds: Some(90),
    });
    let shown = opsx_build::startup::present_campaign(&state).unwrap();
    assert_eq!(shown.iteration, 1);
    assert_eq!(shown.max_iterations, Some(10));
    assert_eq!(shown.completed[0].change, "slice-a");
    assert_eq!(shown.completed[0].elapsed_seconds, Some(90));
}

#[test]
fn prompts_name_the_harness_and_its_guide() {
    let mut state = RunState::new("adjust it".to_owned(), no_changes());
    state.change = Some("a-fix".to_owned());
    state.product_repo = Some("/src/product".to_owned());
    assert!(campaign_subject(&state, "", &harness())
        .contains("is available as an additional Agent directory."));
    assert!(with_sidecar_context(&state, "apply it", &harness()).contains(
        "available through Agent's additional-directory access. Read the product's existing `AGENT.md` when present."
    ));
}

#[test]
fn a_session_without_a_backend_belongs_to_the_default_harness() {
    let mut state = RunState::new("continue".to_owned(), no_changes());
    state.planning_session = Some(SessionId::new("old"));
    for title in ["Agent", "Helper"] {
        let named = Harness { title: title.to_owned(), name: "x".to_owned() };
        let session = planning_session(&state, title, "fresh", &named);
        assert!(matches!(session, SessionMode::Resume { id } if id.as_str() == "old"));
        let session = planning_session(&state, "Codex", "fresh", &named);
        assert!(matches!(session, SessionMode::New { .. }));
    }
}
