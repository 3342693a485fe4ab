use opsx_build::agenda::{AgendaAssignment, AgendaSelection};
use opsx_build::assignment::{
    arm_slice_baseline, baseline_needed, offered_active_change, release_repository,
    release_state_baseline, release_warning, resume_archive, resume_direction, resume_needs_agenda,
    resume_needs_baseline, resume_notice,
};
use opsx_build::backend::{
    AgentError, MissingTerminalResult, SessionId, SessionMode, StageProtocol, StageResult,
    StageSignal,
};
use opsx_build::effect::{Effect, Step, Superseding};
use opsx_build::failure::Failure;
use opsx_build::frontier::{
    abandoned_effects, check_restored_changes, frontier_replan_postcondition, remediation_accepted,
    replan_accepted, replan_answered, replan_position, replan_rejected, replan_start, replan_turn,
    review_answered, review_confirmed, review_rejected, review_start, review_turn,
    terminal_remediation_postcondition, terminal_review_ready_postcondition, with_context, Evidence,
    Finding, Question, Rejection, ReplanStart, ReviewAnswer, ReviewStart,
};
use opsx_build::git::{RollbackReport, SliceBaseline};
use opsx_build::names::Harness;
use opsx_build::openspec::{
    read_changes, read_planning_status, ChangeSnapshot, PlanningStatus, INVALID_LIST,
    INVALID_STATUS, NAMELESS_CHANGE,
};
use opsx_build::planning::{
    propose_answered, propose_assessed, propose_identified, propose_planned, propose_signal,
    propose_turn, proposed_change, reconciliation_warning, Assessment, ProposeAnswer,
};
use opsx_build::stage::Stage;
use opsx_build::stages::{
    archive_answered, archive_inspected, archive_turn, apply_turn, error_message, explore_result,
    explore_turn, final_commit_turn, final_committed, final_milestone, milestone_result,
    next_session, proposal_commit_turn, proposal_committed, record_too_large, repair_result,
    repair_start, repair_turn, require_change, verify_milestone_ancestry, verify_result,
    verify_turn, ArchiveAnswer, ArchiveVerdict,
};
use opsx_build::state::{product_repository, RunState, TooLargeOutcome};
use opsx_build::workflow::{
    after_escalation, agenda_state, begin_iteration, completion_route, done_effects, enter_stage,
    finish_effects, limit_step, next_iteration, pause_effects, CompletionRoute, EscalationRoute,
    IterationStart, StageEntry,
};

fn harness() -> Harness {
    Harness { title: "Agent".to_owned(), name: "agent".to_owned() }
}

fn no_changes() -> ChangeSnapshot {
    ChangeSnapshot { changes: vec![] }
}

fn active(names: &[&str]) -> ChangeSnapshot {
    ChangeSnapshot {
        changes: names.iter().map(|n| (n.to_string(), "{}".to_owned())).collect(),
    }
}

fn at(stage: Stage) -> RunState {
    let mut state = RunState::new("advance".to_owned(), no_changes());
    state.change = Some("0001-a".to_owned());
    state.stage = stage;
    state
}

fn answer(signal: StageSignal, text: &str) -> Result<StageResult, AgentError> {
    Ok(StageResult { signal, text: text.to_owned(), session_id: None })
}

fn slice(change: &str) -> AgendaAssignment {
    AgendaAssignment {
        path: format!("automation/slices/{change}.md"),
        change: change.to_owned(),
        title: change.to_owned(),
        content: "# Title\n## Objective\n## Prerequisites\n## Acceptance Criteria\n## Required Tests\n"
            .to_owned(),
    }
}

fn baseline() -> SliceBaseline {
    SliceBaseline {
        head: "0123456789abcdef".to_owned(),
        tracked_stash: None,
        untracked: vec![],
        status: String::new(),
        snapshot_id: "id".to_owned(),
    }
}

fn failed(step: &Step) -> String {
    match &step.result {
        Err(e) => error_message(e),
        Ok(()) => panic!("expected a failure"),
    }
}

fn texts(effects: &[Effect]) -> Vec<String> {
    effects
        .iter()
        .filter_map(|effect| match effect {
            Effect::Info(s) | Effect::Warn(s) | Effect::Success(s) => Some(s.clone()),
            _ => None,
        })
        .collect()
}

fn report() -> RollbackReport {
    RollbackReport { diagnostic_path: "/d".to_owned(), recovery_ref: Some("refs/x".to_owned()) }
}

#[test]
fn active_changes_are_read_in_order() {
    let printed = r#"{"changes": [{"name": "b", "tasks": 2}, {"name": "a"}, {"tasks": 3, "name": "b"}]}"#;
    let snapshot = read_changes(printed).unwrap();
    assert_eq!(
        snapshot.changes,
        [
            ("a".to_owned(), r#"{"name":"a"}"#.to_owned()),
            ("b".to_owned(), r#"{"name":"b","tasks":3}"#.to_owned()),
        ]
    );
    assert_eq!(read_changes("{}").unwrap(), no_changes());
    assert_eq!(read_changes(r#"{"changes":[{}]}"#).unwrap_err().message, NAMELESS_CHANGE);
    assert_eq!(read_changes("none").unwrap_err().message, INVALID_LIST);
}

#[test]
fn planning_is_complete_where_openspec_says_so() {
    let printed = r#"{"isPlanningComplete": true, "nextSteps": ["write tasks", 3, "validate"]}"#;
    let status = read_planning_status(printed).unwrap();
    assert!(status.is_complete);
    assert_eq!(status.next_steps, ["write tasks", "validate"]);
    let status = read_planning_status(r#"{"isPlanningComplete": "true"}"#).unwrap();
    assert!(!status.is_complete);
    assert!(status.next_steps.is_empty());
    assert_eq!(read_planning_status("{").unwrap_err().message, INVALID_STATUS);
}

#[test]
fn exploration_leads_to_a_proposal() {
    let mut state = at(Stage::Explore);
    let session = SessionMode::New { id: SessionId::new("s"), name: None };
    let turn = explore_turn(&state, session, "/explore", "", &harness());
    assert_eq!(turn.protocol, StageProtocol::Worker);
    assert!(turn.prompt.starts_with("/explore"));
    let step = explore_result(&mut state, &SessionId::new("s"), answer(StageSignal::Ready, "ok"));
    assert!(step.result.is_ok());
    assert_eq!(state.stage, Stage::Propose);
    assert!(step.effects.iter().any(|e| matches!(e, Effect::Persist)));

    let mut state = at(Stage::Explore);
    let step = explore_result(&mut state, &SessionId::new("s"), answer(StageSignal::Blocked, "no"));
    assert!(failed(&step).contains("no"));
    assert_eq!(state.stage, Stage::Explore);

    let mut state = at(Stage::Explore);
    let step =
        explore_result(&mut state, &SessionId::new("s"), answer(StageSignal::TooLarge, "split"));
    assert!(step.result.is_ok());
    assert_eq!(state.too_large.unwrap().summary, "split");
}

#[test]
fn proposals_are_inspected_before_they_count() {
    let mut state = at(Stage::Propose);
    let session = SessionMode::Resume { id: SessionId::new("s") };
    let turn = propose_turn(session, "/propose", "subject", true, false);
    assert_eq!(turn.protocol, StageProtocol::Propose);
    assert!(turn.prompt.contains("subject"));
    let inspected =
        propose_answered(&mut state, &SessionId::new("s"), answer(StageSignal::Ready, "ok"));
    assert!(matches!(inspected, ProposeAnswer::Inspect { session, .. } if session.as_str() == "s"));
    let over = propose_answered(
        &mut state,
        &SessionId::new("s"),
        Err(AgentError::Other { message: "gone".to_owned() }),
    );
    assert!(matches!(over, ProposeAnswer::Over(_)));

    let ready = StageResult { signal: StageSignal::Ready, text: "ok".to_owned(), session_id: None };
    assert!(propose_signal(&mut state, &ready, &no_changes()).is_none());
    let large = StageResult { signal: StageSignal::TooLarge, ..ready.clone() };
    assert!(propose_signal(&mut state, &large, &no_changes()).unwrap().result.is_ok());
    assert!(state.too_large.is_some());

    let status = |done: bool| PlanningStatus { is_complete: done, next_steps: vec![] };
    let mut state = at(Stage::Propose);
    let id = SessionId::new("s");
    let planned = propose_planned(&mut state, "0001-a", &status(true), &id, false, "ok", false);
    assert!(matches!(planned, Assessment::Over(step) if step.result.is_ok()));
    assert_eq!(state.stage, Stage::ProposalCommit);
    let mut state = at(Stage::Propose);
    propose_planned(&mut state, "0001-a", &status(true), &id, false, "ok", true);
    assert_eq!(state.stage, Stage::Apply);
    let mut state = at(Stage::Propose);
    assert!(matches!(
        propose_assessed(&at(Stage::Propose), "ok", &no_changes(), false, false),
        Assessment::Retry(_)
    ));
    assert!(matches!(
        propose_assessed(&at(Stage::Propose), "ok", &no_changes(), false, true),
        Assessment::Over(step) if step.result.is_err()
    ));
    let again = propose_planned(&mut state, "0001-a", &status(false), &id, false, "ok", false);
    assert!(matches!(again, Assessment::Retry(_)));
    assert_eq!(state.stage, Stage::Propose);
    let over = propose_planned(&mut state, "0001-a", &status(false), &id, true, "ok", false);
    assert!(matches!(over, Assessment::Over(step) if step.result.is_err()));
    assert!(reconciliation_warning("0001-a", "0002-a").contains("0002-a"));
    assert_eq!(proposed_change(&at(Stage::Propose)).as_deref(), Some("0001-a"));
    assert!(matches!(
        propose_assessed(&at(Stage::Propose), "ok", &active(&["0001-a"]), true, false),
        Assessment::Identify
    ));
    assert_eq!(
        propose_identified(Some("0001-a".to_owned()), true, Ok("x".to_owned()), false, "s").unwrap(),
        "0001-a"
    );
}

#[test]
fn milestones_are_committed_on_top_of_what_was_there() {
    assert!(verify_milestone_ancestry(Some("a"), true, "proposal").is_ok());
    assert!(verify_milestone_ancestry(None, false, "proposal").is_ok());
    assert!(verify_milestone_ancestry(Some("a"), false, "proposal").is_err());
    assert!(milestone_result("proposal commit", answer(StageSignal::Ready, "ok")).is_ok());
    assert!(milestone_result("proposal commit", answer(StageSignal::Verified, "ok")).is_err());
    let mut state = at(Stage::ProposalCommit);
    let turn = proposal_commit_turn(&state, "0001-a", "fresh", &harness());
    assert_eq!(turn.protocol, StageProtocol::Ready);
    assert!(proposal_committed(&mut state, Some("feed".to_owned())).result.is_ok());
    assert_eq!(state.stage, Stage::Apply);
    assert_eq!(state.proposal_head.as_deref(), Some("feed"));
    let mut state = at(Stage::FinalCommit);
    assert!(final_commit_turn(&state, "0001-a", "fresh").prompt.contains("0001-a"));
    assert!(!final_milestone(&state).is_empty());
    assert!(final_committed(&mut state, Some("beef".to_owned()), None).result.is_ok());
    assert_eq!(state.stage, Stage::Complete);
    assert_eq!(state.final_head.as_deref(), Some("beef"));
    assert_eq!(require_change(&state).unwrap(), "0001-a");
    state.change = None;
    assert!(require_change(&state).is_err());
}

#[test]
fn repairs_end_after_their_limit() {
    let mut state = at(Stage::Verify);
    for cycle in 1..=2 {
        let step =
            verify_result(&mut state, answer(StageSignal::Retry, "red"), None, 2, false);
        assert!(step.result.is_ok(), "cycle {cycle}");
        assert_eq!(state.stage, Stage::Repair);
        assert!(repair_start(&mut state, 2, false).is_none());
        assert!(repair_turn(&state, "0001-a", "/apply", false, "f", &harness()).prompt.contains("red"));
        assert!(repair_result(&mut state, answer(StageSignal::Ready, "ok")).result.is_ok());
        assert_eq!(state.stage, Stage::Verify);
    }
    let step = verify_result(&mut state, answer(StageSignal::Retry, "red"), None, 2, false);
    assert!(step.result.is_err() || state.too_large.is_some());
    let mut state = at(Stage::Verify);
    assert!(verify_turn(&state, "0001-a", "/verify", false, "f", &harness()).prompt.starts_with("/verify"));
    let step = verify_result(&mut state, answer(StageSignal::Verified, "ok"), None, 2, false);
    assert!(step.result.is_ok());
    assert_eq!(state.stage, Stage::Archive);
    let mut state = at(Stage::Verify);
    let step = verify_result(&mut state, answer(StageSignal::Ready, "ok"), None, 2, false);
    assert!(failed(&step).contains("invalid terminal status"));
    let turn = apply_turn(&at(Stage::Apply), "0001-a", "/apply", false, "f", &harness());
    assert_eq!(turn.protocol, StageProtocol::Worker);
}

#[test]
fn archives_are_judged_by_what_is_left() {
    let mut state = at(Stage::Archive);
    assert!(archive_turn(&state, "0001-a", "/archive", false, "f", &harness()).prompt.contains("0001-a"));
    assert!(matches!(
        archive_answered(&mut state, answer(StageSignal::Ready, "ok")),
        ArchiveAnswer::Over(step) if step.result.is_ok()
    ));
    assert_eq!(state.stage, Stage::FinalCommit);
    let missing = || AgentError::MissingTerminal {
        result: MissingTerminalResult::new("no result", None),
    };
    let mut state = at(Stage::Archive);
    assert!(matches!(archive_answered(&mut state, Err(missing())), ArchiveAnswer::Inspect(_)));
    assert!(matches!(
        archive_inspected(&mut state, missing(), Ok(true), false),
        ArchiveVerdict::Over(step) if step.result.is_ok()
    ));
    assert_eq!(state.stage, Stage::FinalCommit);
    let mut state = at(Stage::Archive);
    assert!(matches!(
        archive_inspected(&mut state, missing(), Ok(false), false),
        ArchiveVerdict::Retry(_)
    ));
    assert!(matches!(
        archive_inspected(&mut state, missing(), Ok(false), true),
        ArchiveVerdict::Over(step) if step.result.is_err()
    ));
}

#[test]
fn stages_are_entered_in_order() {
    let mut state = at(Stage::ProposalCommit);
    let (_, entry) = enter_stage(&mut state, true, true);
    assert!(matches!(entry, StageEntry::Run(_)));
    assert_eq!(state.stage, Stage::Apply);
    let (effects, entry) = enter_stage(&mut at(Stage::Complete), false, true);
    assert!(matches!(entry, StageEntry::Complete));
    assert!(matches!(&effects[..], [Effect::Persist]));
    let (effects, entry) = enter_stage(&mut at(Stage::Done), false, true);
    assert!(matches!(entry, StageEntry::Done));
    assert!(matches!(&effects[..], [Effect::Persist]));
    let mut large = at(Stage::Apply);
    record_too_large(&mut large, "split".to_owned());
    let (_, entry) = enter_stage(&mut large, false, true);
    assert!(matches!(entry, StageEntry::Escalated));
}

#[test]
fn ended_workflows_hand_their_recorded_state_over_for_release() {
    for stage in [Stage::Complete, Stage::Done] {
        let mut state = at(stage);
        state.slice_baseline = Some(baseline());
        let (effects, _) = enter_stage(&mut state, false, true);
        assert!(state.slice_baseline.is_none());
        match &effects[..] {
            [Effect::ReleaseBaseline(released, Superseding::End), Effect::Persist] => {
                assert_eq!(*released, baseline());
            }
            other => panic!("{other:?}"),
        }
    }
    let mut running = at(Stage::Apply);
    running.slice_baseline = Some(baseline());
    let (effects, entry) = enter_stage(&mut running, false, true);
    assert!(effects.is_empty());
    assert!(matches!(entry, StageEntry::Run(_)));
    assert_eq!(running.slice_baseline, Some(baseline()));
}

#[test]
fn recorded_states_are_let_go_where_they_were_recorded() {
    let mut state = at(Stage::Complete);
    state.product_repo = Some("/product".to_owned());
    assert_eq!(release_repository("/plan", &state, Superseding::End), "/product");
    assert_eq!(release_repository("/plan", &state, Superseding::Division), "/plan");
    assert_eq!(release_repository("/plan", &state, Superseding::Remediation), "/plan");
    assert_eq!(release_repository("/plan", &at(Stage::Done), Superseding::End), "/plan");
    assert_eq!(
        release_warning(Superseding::End, "busy"),
        "Could not release private rollback metadata; workflow state is unaffected: busy"
    );
    assert_eq!(
        release_warning(Superseding::Division, "busy"),
        "Could not release superseded rollback metadata; workflow state is unaffected: busy"
    );
    assert_eq!(
        release_warning(Superseding::Remediation, "busy"),
        "Could not release superseded terminal rollback metadata; workflow state is unaffected: busy"
    );
}

#[test]
fn oversized_work_goes_to_the_frontier_or_stops() {
    let mut state = at(Stage::Apply);
    state.agenda = Some(slice("0001-a"));
    record_too_large(&mut state, "split".to_owned());
    assert!(matches!(after_escalation(&state, true), Ok(EscalationRoute::Replan)));
    assert!(after_escalation(&state, false).is_err());
    state.local_only = true;
    assert!(after_escalation(&state, true).is_err());
    state.local_only = false;
    state.agenda = Some(slice("9999-project-acceptance"));
    assert!(matches!(after_escalation(&state, true), Ok(EscalationRoute::Review(_))));
    assert!(matches!(
        begin_iteration(&mut at(Stage::Explore), true).1,
        IterationStart::Run { .. }
    ));
}

#[test]
fn campaigns_go_on_until_their_limit() {
    let mut state = RunState::new_campaign("advance".to_owned(), no_changes(), Some(1));
    state.change = Some("0001-a".to_owned());
    state.stage = Stage::Complete;
    assert!(matches!(completion_route(&state), CompletionRoute::Continue));
    let single = at(Stage::Complete);
    assert!(matches!(completion_route(&single), CompletionRoute::Finish));
    assert!(texts(&finish_effects(&single, Some("CMD".to_owned()))).iter().any(|t| t.contains("CMD")));
    let next = next_iteration(state.clone(), active(&["x"]));
    assert_eq!(next.campaign.as_ref().unwrap().iteration, 2);
    assert_eq!(next.stage, Stage::Explore);
    let over = limit_step(&next, "/r", 1, Some(1), "0001-a");
    assert!(texts(&over.effects).iter().any(|t| t.contains("--max-iterations 2")));
    assert!(matches!(
        over.result,
        Err(AgentError::Other { message })
            if message == "the campaign is incomplete: 1 iteration(s) are complete and its limit is 1"
    ));
    for limit in [None, Some(2)] {
        let on = limit_step(&next, "/r", 1, limit, "0001-a");
        assert!(on.effects.is_empty() && on.result.is_ok());
    }
    let mut finished = next.clone();
    finished.stage = Stage::Done;
    assert!(limit_step(&finished, "/r", 1, Some(1), "0001-a").result.is_ok());
    for (no_loop, stop) in [(true, false), (false, true), (true, true)] {
        let paused = pause_effects(no_loop, stop, 3, "0003-c").unwrap();
        assert_eq!(texts(&paused)[0], "PAUSED after campaign iteration 3: `0003-c` is complete");
    }
    assert!(pause_effects(false, false, 3, "0003-c").is_none());
    assert!(!done_effects(&at(Stage::Done)).is_empty());
    let mut boot = RunState::bootstrap(no_changes(), "x");
    boot.stage = Stage::Complete;
    boot.campaign = state.campaign.clone();
    assert!(matches!(completion_route(&boot), CompletionRoute::BeginAgenda));
    let begun = agenda_state(boot, no_changes());
    assert!(!begun.bootstrap);
    assert_eq!(begun.request, "advance");
    assert_eq!(product_repository("/plan", &begun), "/plan");
}

#[test]
fn replanning_needs_a_baseline_and_is_bounded() {
    let mut state = at(Stage::Apply);
    state.agenda = Some(slice("0001-a"));
    state.slice_baseline = Some(baseline());
    record_too_large(&mut state, "split".to_owned());
    assert!(matches!(replan_start(&state), ReplanStart::Proceed { .. }));
    state.slice_baseline = None;
    assert!(matches!(replan_start(&state), ReplanStart::Refused(_)));
    state.slice_baseline = Some(baseline());
    state.frontier_replans = 3;
    assert!(matches!(
        replan_start(&state),
        ReplanStart::Refused(_) | ReplanStart::RefusedAfterReset(_)
    ));
    let outcome = TooLargeOutcome { stage: Stage::Apply, summary: "split".to_owned() };
    let turn = replan_turn(&slice("0001-a"), &outcome, Some("wrong"), &SessionId::new("s"), &harness());
    assert_eq!(turn.protocol, StageProtocol::Frontier);
    assert!(turn.prompt.contains("wrong"));
    assert!(replan_answered(answer(StageSignal::Replanned, "ok")).is_ok());
    assert!(replan_answered(answer(StageSignal::Blocked, "no")).is_err());
    let why = Failure { message: "because".to_owned() };
    assert!(matches!(replan_rejected(true, &why), Rejection::Retry(_)));
    assert!(matches!(replan_rejected(false, &why), Rejection::Over(e) if e.message.contains("because")));
    let mut state = at(Stage::Apply);
    record_too_large(&mut state, "split".to_owned());
    state.slice_baseline = Some(baseline());
    let effects = replan_accepted(&mut state, slice("0001-a"), no_changes(), baseline());
    assert!(matches!(
        &effects[..],
        [
            Effect::ArmBaseline,
            Effect::Persist,
            Effect::ReleaseBaseline(released, Superseding::Division),
            Effect::Success(_),
        ] if *released == baseline()
    ));
    assert_eq!(
        texts(&effects),
        ["Frontier replanned `0001-a` into smaller ordered slices; restarting at Propose"]
    );
    assert_eq!(state.frontier_replans, 1);
    assert_eq!(state.stage, Stage::Propose);
    assert!(state.too_large.is_none());
    let (number, total) = replan_position(Stage::Apply);
    assert!(number <= total);
    assert!(!abandoned_effects("slice", Stage::Apply, "0123456789abcdef", &report()).is_empty());
    assert!(check_restored_changes(&no_changes(), &at(Stage::Apply), "rollback", &report()).is_ok());
    assert!(
        check_restored_changes(&active(&["x"]), &at(Stage::Apply), "rollback", &report()).is_err()
    );
    assert!(matches!(
        with_context(AgentError::Other { message: "b".to_owned() }, "a"),
        AgentError::Other { message } if message == "a: b"
    ));
    assert!(matches!(
        with_context(AgentError::Escalation { reason: "b".to_owned() }, "a"),
        AgentError::Escalation { reason } if reason == "a: b"
    ));
    let missing = AgentError::MissingTerminal { result: MissingTerminalResult::new("b", None) };
    assert!(matches!(
        with_context(missing, "a"),
        AgentError::MissingTerminal { result } if result.message() == "a: b"
    ));
    assert!(matches!(with_context(AgentError::Pause, "a"), AgentError::Pause));
    let missing = AgentError::MissingTerminal { result: MissingTerminalResult::new("none", None) };
    assert_eq!(
        error_message(&replan_answered(Err(missing)).unwrap_err()),
        "frontier replan invocation failed; the pre-Propose baseline was restored: none"
    );
}

#[test]
fn replans_are_accepted_on_evidence_alone() {
    let original = slice("0001-a");
    let mut smaller = slice("0001-a");
    smaller.content = format!("{}smaller\n", smaller.content);
    let mut evidence = Evidence::none();
    let ask = |e: &Evidence| match frontier_replan_postcondition(e, "base", &original) {
        Finding::Ask(question) => question,
        _ => panic!("expected a question"),
    };
    assert_eq!(ask(&evidence), Question::Head);
    evidence.head = Some(Some("new".to_owned()));
    evidence.descends = Some(true);
    evidence.committed = Some(vec!["automation/slices/0001-a.md".to_owned()]);
    evidence.preserved = Some(true);
    evidence.changes_unchanged = Some(true);
    evidence.terminal_unchanged = Some(true);
    evidence.selection = Some(Ok(AgendaSelection::Next(smaller.clone())));
    evidence.subdivided = Some(true);
    evidence.readme = Some(true);
    assert!(matches!(
        frontier_replan_postcondition(&evidence, "base", &original),
        Finding::Accepted(a) if a == smaller
    ));
    evidence.head = Some(Some("base".to_owned()));
    assert!(matches!(
        frontier_replan_postcondition(&evidence, "base", &original),
        Finding::Rejected(_)
    ));
    evidence.head = Some(Some("new".to_owned()));
    evidence.committed = Some(vec!["src/main.rs".to_owned()]);
    assert!(matches!(
        frontier_replan_postcondition(&evidence, "base", &original),
        Finding::Rejected(_)
    ));
}

#[test]
fn the_last_slice_is_confirmed_or_remedied() {
    let mut state = at(Stage::Propose);
    state.agenda = Some(slice("9999-project-acceptance"));
    state.slice_baseline = Some(baseline());
    assert!(matches!(review_start(&state, false), ReviewStart::Proceed { .. }));
    state.terminal_remediations = 3;
    assert!(!matches!(review_start(&state, true), ReviewStart::Proceed { .. }));
    let last = slice("9999-project-acceptance");
    let turn = review_turn(&last, None, None, &SessionId::new("s"), &harness());
    assert_eq!(turn.protocol, StageProtocol::TerminalReview);
    assert!(matches!(
        review_answered(answer(StageSignal::Ready, "ok"), false),
        ReviewAnswer::HoldUnchanged
    ));
    assert!(matches!(
        review_answered(answer(StageSignal::Ready, "ok"), true),
        ReviewAnswer::Rejected(_)
    ));
    assert!(matches!(
        review_answered(answer(StageSignal::Replanned, "ok"), true),
        ReviewAnswer::HoldRemediation
    ));
    assert!(matches!(
        review_answered(answer(StageSignal::Blocked, "no"), false),
        ReviewAnswer::Over(_)
    ));
    let mut evidence = Evidence::none();
    assert!(matches!(
        terminal_review_ready_postcondition(&evidence, "base"),
        Finding::Ask(Question::Head)
    ));
    evidence.head = Some(Some("base".to_owned()));
    evidence.preserved = Some(true);
    evidence.changes_unchanged = Some(true);
    evidence.terminal_unchanged = Some(true);
    assert!(matches!(
        terminal_review_ready_postcondition(&evidence, "base"),
        Finding::Unchanged
    ));
    assert!(matches!(
        terminal_remediation_postcondition(&evidence, "base"),
        Finding::Rejected(_)
    ));
    let why = Failure { message: "because".to_owned() };
    assert!(matches!(review_rejected(true, &why), Rejection::Retry(_)));
    assert!(matches!(review_rejected(false, &why), Rejection::Over(_)));
    let mut state = at(Stage::Propose);
    review_confirmed(&mut state);
    assert!(state.terminal_review_complete);
    state.slice_baseline = Some(baseline());
    let effects = remediation_accepted(&mut state, slice("0014-x"), no_changes(), baseline());
    assert!(matches!(
        &effects[..],
        [
            Effect::ReleaseBaseline(released, Superseding::Remediation),
            Effect::ArmBaseline,
            Effect::Persist,
            Effect::ChangeName(Some(name)),
            Effect::Success(_),
        ] if *released == baseline() && name == "0014-x"
    ));
    assert!(state.slice_baseline.is_none());
    assert_eq!(state.terminal_remediations, 1);
    assert_eq!(state.change.as_deref(), Some("0014-x"));
}

#[test]
fn checkpoints_are_taken_up_where_they_stood() {
    let mut state = at(Stage::Archive);
    assert!(resume_notice(&state).contains("0001-a"));
    assert!(!resume_archive(&mut state, &no_changes()).is_empty());
    assert_eq!(state.stage, Stage::FinalCommit);
    let mut state = at(Stage::Archive);
    resume_archive(&mut state, &active(&["0001-a"]));
    assert_eq!(state.stage, Stage::Archive);
    assert!(resume_direction(&mut state, None).is_empty());
    assert!(!resume_direction(&mut state, Some("keep it")).is_empty());
    assert_eq!(state.stage, Stage::Repair);
    let mut state = at(Stage::Explore);
    state.agenda = Some(slice("0001-a"));
    assert!(baseline_needed(&state));
    arm_slice_baseline(&mut state, Some(baseline()));
    assert!(!baseline_needed(&at(Stage::Done)));
    assert_eq!(release_state_baseline(&mut state).unwrap().head, "0123456789abcdef");
    assert!(state.slice_baseline.is_none());
    assert!(resume_needs_agenda(&at(Stage::Explore)));
    assert!(!resume_needs_agenda(&at(Stage::Verify)));
    assert!(!resume_needs_baseline(&at(Stage::Verify), false));
    assert!(resume_needs_baseline(&at(Stage::Propose), false));
    assert!(!resume_needs_baseline(&at(Stage::Propose), true));
    let offered = AgendaSelection::Next(slice("0001-a"));
    let mut known = at(Stage::Explore);
    known.before_changes = active(&["0001-a"]);
    assert_eq!(offered_active_change(&known, &offered).as_deref(), Some("0001-a"));
    assert_eq!(offered_active_change(&at(Stage::Explore), &offered), None);
    let result = StageResult {
        signal: StageSignal::Ready,
        text: String::new(),
        session_id: Some("new".to_owned()),
    };
    assert_eq!(next_session(&SessionId::new("old"), &result).as_str(), "new");
}
