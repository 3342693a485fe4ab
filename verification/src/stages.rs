//! The stages of a workflow: what each asks of its agent, and what the answer does to
//! the state of the run.
use crate::backend::{
    AgentError, SessionId, SessionMode, SessionModeView, StageProtocol, StageResult, StageSignal,
};
use crate::effect::{
    answer, as_error, blocked, blocked_message, done, effects0, effects1, effects2, effects3, ended,
    fresh, fresh_session, readiness, refuse, refused, require_ready, unexpected, unexpected_message,
    Effect, EffectView, ErrorView, ResultView, Step, StepView, Turn, TurnView,
};
use crate::failure::Failure;
use crate::names::{Harness, HarnessView};
use crate::numeral::{decimal, decimal_text};
use crate::prompts::{
    apply_task, applying, archive_subject, archiving, campaign_subject, completion_committing,
    final_commit_task, law_nothing_told_is_lost, law_stages_are_told_their_change, prompt_of,
    proposal_commit_task, proposal_committing, repair_task, repairing, stage_prompt, subject_of,
    verify_task, verifying, with_direction, with_guidance, with_sidecar_context, with_workspace,
    ARCHIVE_RECOVERY, NO_FINDING,
};
use crate::stage::Stage;
use crate::state::{RunState, RunStateView, TooLargeOutcome, TooLargeView};
use crate::text::{cat2, cat3, cat5, contains_text, equal, text_option, trim, trimmed};
use vstd::prelude::*;
use vstd::string::*;

verus! {

/// The state with the report that the work does not fit one change.
pub open spec fn escalated(s: RunStateView, summary: Seq<char>) -> RunStateView {
    RunStateView { too_large: Some(TooLargeView { stage: s.stage, summary }), ..s }
}

/// Records that the work does not fit one change.
pub fn record_too_large(state: &mut RunState, summary: String)
    ensures
        final(state)@ == escalated(old(state)@, summary@),
{
    state.too_large = Some(TooLargeOutcome { stage: state.stage, summary });
}

/// The name of the change that a stage works on.
pub fn require_change(state: &RunState) -> (r: Result<String, Failure>)
    ensures
        match state@.change {
            Some(change) => r matches Ok(name) && name@ == change,
            None => crate::failure::failed(r, "workflow state has no OpenSpec change name"@),
        },
{
    match &state.change {
        Some(change) => Ok(change.clone()),
        None => crate::failure::fail_with("workflow state has no OpenSpec change name"),
    }
}

/// Whether a saved conversation is one of this backend. One that was saved without a
/// backend belongs to the default one.
pub open spec fn resumable(s: RunStateView, backend: Seq<char>, h: HarnessView) -> bool {
    s.planning_session is Some && match s.planning_backend {
        Some(saved) => saved == backend,
        None => h.title == backend,
    }
}

/// The conversation in which planning goes on.
pub open spec fn planning_mode(
    s: RunStateView,
    backend: Seq<char>,
    fresh_id: Seq<char>,
    h: HarnessView,
) -> SessionModeView {
    if resumable(s, backend, h) {
        SessionModeView::Resume { id: s.planning_session->0 }
    } else {
        fresh(fresh_id, "opsx-build-planning"@)
    }
}

pub fn planning_session(
    state: &RunState,
    backend: &str,
    fresh_id: &str,
    harness: &Harness,
) -> (r: SessionMode)
    ensures
        r@ == planning_mode(state@, backend@, fresh_id@, harness@),
{
    if let Some(id) = &state.planning_session {
        let same = match &state.planning_backend {
            Some(saved) => equal(saved.as_str(), backend),
            None => equal(harness.title.as_str(), backend),
        };
        if same {
            return SessionMode::Resume { id: id.copy() };
        }
    }
    fresh_session(fresh_id, "opsx-build-planning")
}

/// Records the conversation that the backend gave for planning.
pub fn record_planning_session(state: &mut RunState, session: &SessionMode, backend: &str)
    ensures
        final(state)@ == (RunStateView {
            planning_session: Some(session@.id()),
            planning_backend: Some(backend@),
            ..old(state)@
        }),
{
    state.planning_session = Some(session.id().copy());
    state.planning_backend = Some(backend.to_owned());
}

/// A planning conversation is taken up by the backend that recorded it and by no other,
/// and one that was saved without a backend by the default harness and by no other.
pub proof fn law_planning_is_taken_up_where_it_began(
    s: RunStateView,
    id: Seq<char>,
    backend: Seq<char>,
    asked: Seq<char>,
    fresh_id: Seq<char>,
    h: HarnessView,
)
    ensures
        ({
            let recorded = RunStateView {
                planning_session: Some(id),
                planning_backend: Some(backend),
                ..s
            };
            let unnamed = RunStateView {
                planning_session: Some(id),
                planning_backend: None,
                ..s
            };
            &&& planning_mode(recorded, asked, fresh_id, h) == if asked == backend {
                SessionModeView::Resume { id }
            } else {
                fresh(fresh_id, "opsx-build-planning"@)
            }
            &&& planning_mode(unnamed, asked, fresh_id, h) == if asked == h.title {
                SessionModeView::Resume { id }
            } else {
                fresh(fresh_id, "opsx-build-planning"@)
            }
        }),
{
}

/// The conversation after an answer: the one that the answer names, or the same.
pub open spec fn session_after(id: Seq<char>, result: ResultView) -> Seq<char> {
    match result.session_id {
        Some(named) => named,
        None => id,
    }
}

pub fn next_session(id: &SessionId, result: &StageResult) -> (r: SessionId)
    ensures
        r@ == session_after(id@, result@),
{
    match &result.session_id {
        Some(named) => SessionId::new(named.as_str()),
        None => id.copy(),
    }
}

/// A step that hands an error on.
pub open spec fn passed_on(s: RunStateView, e: ErrorView) -> StepView {
    StepView { state: s, effects: Seq::empty(), result: Err(e) }
}

// Explore

pub fn explore_turn(
    state: &RunState,
    session: SessionMode,
    command: &str,
    instructions: &str,
    harness: &Harness,
) -> (r: Turn)
    ensures
        r@ == (TurnView {
            session: session@,
            prompt: prompt_of(
                command@,
                subject_of(state@, instructions@, harness@),
                StageProtocol::Worker,
            ),
            activity: "Worker agent is exploring the change"@,
            protocol: StageProtocol::Worker,
        }),
{
    let subject = campaign_subject(state, instructions, harness);
    Turn {
        session,
        prompt: stage_prompt(command, subject.as_str(), StageProtocol::Worker),
        activity: "Worker agent is exploring the change".to_owned(),
        protocol: StageProtocol::Worker,
    }
}

/// What the answer of the explore stage leads to.
pub open spec fn explored(s: RunStateView, session: Seq<char>, outcome: Result<ResultView, ErrorView>) -> StepView {
    match outcome {
        Ok(result) => {
            let id = session_after(session, result);
            let t = RunStateView { planning_session: Some(id), ..s };
            match result.signal {
                StageSignal::Ready => match s.stage.successor() {
                    Some(next) => done(
                        RunStateView { stage: next, ..t },
                        seq![EffectView::Persist, EffectView::Compact(id, "Explore"@)],
                    ),
                    None => refused(
                        t,
                        seq![EffectView::Persist],
                        s.stage.name() + " cannot follow a READY result"@,
                    ),
                },
                StageSignal::TooLarge => done(escalated(t, result.text), seq![EffectView::Persist]),
                StageSignal::Blocked => refused(
                    t,
                    seq![EffectView::Persist],
                    blocked_message("explore"@, result.text),
                ),
                other => refused(
                    t,
                    seq![EffectView::Persist],
                    unexpected_message("explore"@, other),
                ),
            }
        },
        Err(ErrorView::Escalation(reason)) => done(escalated(s, reason), seq![EffectView::Persist]),
        Err(e) => passed_on(s, e),
    }
}

pub fn explore_result(
    state: &mut RunState,
    session: &SessionId,
    outcome: Result<StageResult, AgentError>,
) -> (r: Step)
    ensures
        r.with(final(state)@) == explored(old(state)@, session@, answer(outcome)),
{
    match outcome {
        Ok(result) => {
            let id = next_session(session, &result);
            state.planning_session = Some(id.copy());
            match result.signal {
                StageSignal::Ready => match state.stage.after_ready() {
                    Ok(next) => {
                        state.stage = next;
                        Step {
                            effects: effects2(Effect::Persist, Effect::Compact(id, "Explore".to_owned())),
                            result: Ok(()),
                        }
                    },
                    Err(e) => Step {
                        effects: effects1(Effect::Persist),
                        result: Err(as_error(e)),
                    },
                },
                StageSignal::TooLarge => {
                    record_too_large(state, result.text);
                    Step { effects: effects1(Effect::Persist), result: Ok(()) }
                },
                StageSignal::Blocked => Step {
                    effects: effects1(Effect::Persist),
                    result: refuse(blocked("explore", result.text.as_str())),
                },
                other => Step {
                    effects: effects1(Effect::Persist),
                    result: refuse(unexpected("explore", other)),
                },
            }
        },
        Err(AgentError::Escalation { reason }) => {
            record_too_large(state, reason);
            Step { effects: effects1(Effect::Persist), result: Ok(()) }
        },
        Err(e) => Step { effects: effects0(), result: Err(e) },
    }
}

// Proposal commit

pub fn proposal_commit_turn(
    state: &RunState,
    change: &str,
    fresh_id: &str,
    harness: &Harness,
) -> (r: Turn)
    ensures
        r@ == (TurnView {
            session: fresh(fresh_id@, change@ + "-proposal-commit"@),
            prompt: prompt_of(
                Seq::empty(),
                proposal_committing(state@, change@, harness@),
                StageProtocol::Ready,
            ),
            activity: "Worker agent is committing the proposal"@,
            protocol: StageProtocol::Ready,
        }),
{
    let task = proposal_commit_task(state, change, harness);
    let name = cat2(change, "-proposal-commit");
    proof {
        reveal_strlit("");
        assert(""@ =~= Seq::empty());
    }
    Turn {
        session: fresh_session(fresh_id, name.as_str()),
        prompt: stage_prompt("", task.as_str(), StageProtocol::Ready),
        activity: "Worker agent is committing the proposal".to_owned(),
        protocol: StageProtocol::Ready,
    }
}

/// What is reported where a milestone has replaced committed history.
pub open spec fn replaced_history(milestone: Seq<char>, baseline: Seq<char>) -> Seq<char> {
    "the "@ + milestone + " milestone replaced previously committed Git history: starting commit `"@
        + baseline
        + "` is no longer an ancestor of HEAD. The repository has been left untouched for recovery through Git's reflog"@
}

/// Checks that a milestone builds on what was committed before it. `descends` is
/// whether the commit that is checked out descends from the baseline; without a
/// baseline there is nothing to build on.
pub fn verify_milestone_ancestry(baseline: Option<&str>, descends: bool, milestone: &str) -> (r: Result<
    (),
    Failure,
>)
    ensures
        match baseline {
            Some(b) if !descends => crate::failure::failed(r, replaced_history(milestone@, b@)),
            _ => r is Ok,
        },
{
    match baseline {
        Some(b) => {
            if descends {
                Ok(())
            } else {
                crate::failure::fail(
                    cat5(
                        "the ",
                        milestone,
                        " milestone replaced previously committed Git history: starting commit `",
                        b,
                        "` is no longer an ancestor of HEAD. The repository has been left untouched for recovery through Git's reflog",
                    ),
                )
            }
        },
        None => Ok(()),
    }
}

/// Whether a milestone's agent is done, once the history is known to be intact.
pub open spec fn milestone_outcome(stage: Seq<char>, outcome: Result<ResultView, ErrorView>) -> Result<
    (),
    ErrorView,
> {
    match outcome {
        Ok(result) => readiness(stage, result.text, result.signal),
        Err(e) => Err(e),
    }
}

pub fn milestone_result(stage: &str, outcome: Result<StageResult, AgentError>) -> (r: Result<
    (),
    AgentError,
>)
    ensures
        ended(r) == milestone_outcome(stage@, answer(outcome)),
{
    match outcome {
        Ok(result) => require_ready(stage, result.text.as_str(), result.signal),
        Err(e) => Err(e),
    }
}

/// What the successor of a stage makes of the state.
pub open spec fn advanced(s: RunStateView, t: RunStateView) -> StepView {
    match s.stage.successor() {
        Some(next) => done(RunStateView { stage: next, ..t }, seq![EffectView::Persist]),
        None => refused(t, Seq::empty(), s.stage.name() + " cannot follow a READY result"@),
    }
}

fn advance(state: &mut RunState) -> (r: Step)
    ensures
        r.with(final(state)@) == advanced(old(state)@, old(state)@),
{
    match state.stage.after_ready() {
        Ok(next) => {
            state.stage = next;
            Step { effects: effects1(Effect::Persist), result: Ok(()) }
        },
        Err(e) => Step { effects: effects0(), result: Err(as_error(e)) },
    }
}

/// What a proposal commit leads to.
pub open spec fn proposal_kept(s: RunStateView, head: Option<Seq<char>>) -> StepView {
    advanced(s, RunStateView { proposal_head: head, ..s })
}

/// Records the proposal commit and moves on.
pub fn proposal_committed(state: &mut RunState, head: Option<String>) -> (r: Step)
    ensures
        r.with(final(state)@) == proposal_kept(old(state)@, text_option(head)),
{
    state.proposal_head = head;
    advance(state)
}

// Apply

proof fn lemma_told_in_turn(
    base: Seq<char>,
    told: Seq<char>,
    direction: Option<Seq<char>>,
    product: Option<Seq<char>>,
    command: Seq<char>,
    protocol: StageProtocol,
    h: HarnessView,
)
    requires
        told.is_prefix_of(base) || told.is_suffix_of(base),
    ensures
        ({
            let prompt = prompt_of(
                command,
                with_guidance(with_workspace(product, base, h), direction),
                protocol,
            );
            &&& contains_text(prompt, told)
            &&& direction matches Some(d) ==> contains_text(prompt, d)
            &&& product matches Some(p) ==> contains_text(prompt, p)
        }),
{
    let placed = with_workspace(product, base, h);
    let guided = with_guidance(placed, direction);
    law_nothing_told_is_lost(base, told, None, product, command, protocol, h);
    law_nothing_told_is_lost(placed, told, direction, None, command, protocol, h);
    law_nothing_told_is_lost(guided, told, None, None, command, protocol, h);
    if direction is Some {
        law_nothing_told_is_lost(guided, direction->0, None, None, command, protocol, h);
    }
    if product is Some {
        law_nothing_told_is_lost(placed, product->0, direction, None, command, protocol, h);
        law_nothing_told_is_lost(guided, product->0, None, None, command, protocol, h);
    }
}

pub fn apply_turn(
    state: &RunState,
    change: &str,
    command: &str,
    frontier_terminal: bool,
    fresh_id: &str,
    harness: &Harness,
) -> (r: Turn)
    ensures
        r@ == (TurnView {
            session: fresh(fresh_id@, change@ + "-apply"@),
            prompt: prompt_of(
                command@,
                with_guidance(
                    with_workspace(
                        state@.product_repo,
                        applying(state@.bootstrap, frontier_terminal, change@),
                        harness@,
                    ),
                    state@.pending_direction,
                ),
                StageProtocol::Worker,
            ),
            activity: if frontier_terminal {
                "Frontier agent is applying whole-project acceptance"@
            } else {
                "Worker agent is applying the OpenSpec change"@
            },
            protocol: StageProtocol::Worker,
        }),
        contains_text(r@.prompt, change@),
        state@.pending_direction matches Some(d) ==> contains_text(r@.prompt, d),
        state@.product_repo matches Some(p) ==> contains_text(r@.prompt, p),
        r@.session is New && r@.session.id() == fresh_id@,
{
    proof {
        let base = applying(state@.bootstrap, frontier_terminal, change@);
        law_stages_are_told_their_change(
            state@.bootstrap,
            frontier_terminal,
            change@,
            Seq::empty(),
        );
        assert(base.subrange(0, change@.len() as int) =~= change@);
        lemma_told_in_turn(
            base,
            change@,
            state@.pending_direction,
            state@.product_repo,
            command@,
            StageProtocol::Worker,
            harness@,
        );
    }
    let base = apply_task(state.bootstrap, frontier_terminal, change);
    let placed = with_sidecar_context(state, base.as_str(), harness);
    let direction = match &state.pending_direction {
        Some(d) => Some(d.as_str()),
        None => None,
    };
    let subject = with_direction(placed.as_str(), direction);
    let name = cat2(change, "-apply");
    Turn {
        session: fresh_session(fresh_id, name.as_str()),
        prompt: stage_prompt(command, subject.as_str(), StageProtocol::Worker),
        activity: if frontier_terminal {
            "Frontier agent is applying whole-project acceptance".to_owned()
        } else {
            "Worker agent is applying the OpenSpec change".to_owned()
        },
        protocol: StageProtocol::Worker,
    }
}

/// What a worker's answer leads to, where `ready` is the state that it may move on
/// from once it is ready.
pub open spec fn worked(
    s: RunStateView,
    stage: Seq<char>,
    outcome: Result<ResultView, ErrorView>,
    ready: RunStateView,
) -> StepView {
    match outcome {
        Ok(result) => match result.signal {
            StageSignal::Ready => advanced(s, ready),
            StageSignal::TooLarge => done(escalated(s, result.text), seq![EffectView::Persist]),
            StageSignal::Blocked => refused(s, Seq::empty(), blocked_message(stage, result.text)),
            other => refused(s, Seq::empty(), unexpected_message(stage, other)),
        },
        Err(ErrorView::Escalation(reason)) => done(escalated(s, reason), seq![EffectView::Persist]),
        Err(e) => passed_on(s, e),
    }
}

/// Takes what is not readiness from a worker's answer.
fn unready(state: &mut RunState, stage: &str, outcome: Result<StageResult, AgentError>) -> (r: Option<
    Step,
>)
    ensures
        match r {
            None => answer(outcome) matches Ok(result) && result.signal == StageSignal::Ready
                && final(state)@ == old(state)@,
            Some(step) => !(answer(outcome) matches Ok(result) && result.signal
                == StageSignal::Ready) && step.with(final(state)@) == worked(
                old(state)@,
                stage@,
                answer(outcome),
                old(state)@,
            ),
        },
{
    match outcome {
        Ok(result) => match result.signal {
            StageSignal::Ready => None,
            StageSignal::TooLarge => {
                record_too_large(state, result.text);
                Some(Step { effects: effects1(Effect::Persist), result: Ok(()) })
            },
            StageSignal::Blocked => Some(
                Step {
                    effects: effects0(),
                    result: refuse(blocked(stage, result.text.as_str())),
                },
            ),
            other => Some(Step { effects: effects0(), result: refuse(unexpected(stage, other)) }),
        },
        Err(AgentError::Escalation { reason }) => {
            record_too_large(state, reason);
            Some(Step { effects: effects1(Effect::Persist), result: Ok(()) })
        },
        Err(e) => Some(Step { effects: effects0(), result: Err(e) }),
    }
}

/// What the answer of the apply stage leads to. Direction is used up by an application.
pub open spec fn applied(s: RunStateView, outcome: Result<ResultView, ErrorView>) -> StepView {
    worked(s, "apply"@, outcome, RunStateView { pending_direction: None, ..s })
}

pub fn apply_result(state: &mut RunState, outcome: Result<StageResult, AgentError>) -> (r: Step)
    ensures
        r.with(final(state)@) == applied(old(state)@, answer(outcome)),
        final(state)@.stage != old(state)@.stage ==> (answer(outcome) matches Ok(a) && a.signal
            == StageSignal::Ready),
{
    match unready(state, "apply", outcome) {
        Some(step) => step,
        None => {
            state.consume_direction();
            advance(state)
        },
    }
}

// Verify

pub fn verify_turn(
    state: &RunState,
    change: &str,
    command: &str,
    frontier_terminal: bool,
    fresh_id: &str,
    harness: &Harness,
) -> (r: Turn)
    requires
        state.verify_retries < u32::MAX,
    ensures
        r@ == (TurnView {
            session: fresh(
                fresh_id@,
                change@ + "-verify-"@ + decimal((state@.verify_retries + 1) as nat),
            ),
            prompt: prompt_of(
                command@,
                with_workspace(
                    state@.product_repo,
                    verifying(state@.bootstrap, frontier_terminal, change@),
                    harness@,
                ),
                StageProtocol::Verify,
            ),
            activity: if frontier_terminal {
                "Frontier agent is verifying the complete project goal"@
            } else {
                "Worker agent is verifying specification compliance"@
            },
            protocol: StageProtocol::Verify,
        }),
        contains_text(r@.prompt, change@),
        state@.product_repo matches Some(p) ==> contains_text(r@.prompt, p),
        r@.session is New && r@.session.id() == fresh_id@,
{
    proof {
        let base = verifying(state@.bootstrap, frontier_terminal, change@);
        law_stages_are_told_their_change(
            state@.bootstrap,
            frontier_terminal,
            change@,
            Seq::empty(),
        );
        assert(base.subrange(0, change@.len() as int) =~= change@);
        lemma_told_in_turn(
            base,
            change@,
            None,
            state@.product_repo,
            command@,
            StageProtocol::Verify,
            harness@,
        );
    }
    let base = verify_task(state.bootstrap, frontier_terminal, change);
    let subject = with_sidecar_context(state, base.as_str(), harness);
    let number = decimal_text((state.verify_retries + 1) as u64);
    let name = cat3(change, "-verify-", number.as_str());
    Turn {
        session: fresh_session(fresh_id, name.as_str()),
        prompt: stage_prompt(command, subject.as_str(), StageProtocol::Verify),
        activity: if frontier_terminal {
            "Frontier agent is verifying the complete project goal".to_owned()
        } else {
            "Worker agent is verifying specification compliance".to_owned()
        },
        protocol: StageProtocol::Verify,
    }
}

/// Why verification is given up after its repair cycles.
pub open spec fn exhausted_verification(frontier_terminal: bool, cycles: u32, findings: Seq<char>) -> Seq<
    char,
> {
    if frontier_terminal {
        "frontier acceptance review still found material project-goal gaps after "@ + decimal(
            cycles as nat,
        )
            + " frontier repair cycle(s); insert bounded remediation slices before the terminal gate. Latest findings:\n"@
            + trimmed(findings)
    } else {
        "local worker exhausted "@ + decimal(cycles as nat)
            + " verification repair cycle(s); the failed attempt requires frontier subdivision"@
    }
}

/// `done` of `all`, as it is shown.
pub open spec fn fraction(n: nat, all: u32) -> Seq<char> {
    decimal(n) + "/"@ + decimal(all as nat)
}

fn fraction_text(n: u32, all: u32) -> (r: String)
    ensures
        r@ == fraction(n as nat, all),
{
    let a = decimal_text(n as u64);
    let b = decimal_text(all as u64);
    cat3(a.as_str(), "/", b.as_str())
}

/// What a passed verification leads to. A bootstrap run's agenda has to pass its own
/// check too: `check` is the number of slices, or what is wrong.
pub open spec fn verified(s: RunStateView, check: Option<Result<usize, Seq<char>>>, cycles: u32) -> StepView {
    let passed = RunStateView { pending_repair: None, stage: Stage::Archive, ..s };
    let t = RunStateView { pending_repair: None, ..s };
    match check {
        Some(Err(error)) => {
            let n = (s.verify_retries + 1) as u32;
            let retried = RunStateView { verify_retries: n, ..s };
            if n > cycles {
                refused(
                    retried,
                    Seq::empty(),
                    "bootstrap agenda still failed its structural postcondition after "@ + decimal(
                        cycles as nat,
                    ) + " repair cycle(s): "@ + error,
                )
            } else {
                done(
                    RunStateView {
                        pending_repair: Some(
                            "OpenSpec verification reported success, but the deterministic bootstrap agenda check failed: "@
                                + error + ". Correct the agenda without implementing product code."@,
                        ),
                        stage: Stage::Repair,
                        ..retried
                    },
                    seq![
                        EffectView::Persist,
                        EffectView::Warn(
                            "Bootstrap agenda requires structural repair "@ + fraction(
                                n as nat,
                                cycles,
                            ) + ": "@ + error,
                        ),
                    ],
                )
            }
        },
        Some(Ok(count)) => {
            let praise = EffectView::Success(
                "Bootstrap agenda passed structural checks ("@ + decimal(count as nat)
                    + " slices)"@,
            );
            if s.stage == Stage::Verify {
                done(
                    passed,
                    seq![
                        praise,
                        EffectView::Success("Verification passed"@),
                        EffectView::Persist,
                    ],
                )
            } else {
                refused(
                    t,
                    seq![praise, EffectView::Success("Verification passed"@)],
                    s.stage.name() + " cannot follow a VERIFIED result"@,
                )
            }
        },
        None => if s.stage == Stage::Verify {
            done(passed, seq![EffectView::Success("Verification passed"@), EffectView::Persist])
        } else {
            refused(
                t,
                seq![EffectView::Success("Verification passed"@)],
                s.stage.name() + " cannot follow a VERIFIED result"@,
            )
        },
    }
}

/// What a request for repair leads to: a repair while there are cycles left.
pub open spec fn retried(s: RunStateView, findings: Seq<char>, cycles: u32, frontier_terminal: bool) -> StepView {
    let n = (s.verify_retries + 1) as u32;
    let t = RunStateView { verify_retries: n, pending_repair: Some(findings), ..s };
    if n > cycles {
        done(
            escalated(t, exhausted_verification(frontier_terminal, cycles, findings)),
            seq![EffectView::Persist],
        )
    } else {
        done(
            RunStateView { stage: Stage::Repair, ..t },
            seq![
                EffectView::Persist,
                EffectView::Warn("Verification requested repair "@ + fraction(n as nat, cycles)),
            ],
        )
    }
}

pub const INVALID_VERIFY: &'static str = "verify returned an invalid terminal status instead of VERIFIED, RETRY, or BLOCKED";

/// What the answer of the verify stage leads to. `check` is looked at only for a
/// passed verification.
pub open spec fn judged(
    s: RunStateView,
    outcome: Result<ResultView, ErrorView>,
    check: Option<Result<usize, Seq<char>>>,
    cycles: u32,
    frontier_terminal: bool,
) -> StepView {
    match outcome {
        Ok(result) => match result.signal {
            StageSignal::Verified => verified(s, check, cycles),
            StageSignal::Retry => retried(s, result.text, cycles, frontier_terminal),
            StageSignal::Blocked => refused(
                s,
                Seq::empty(),
                blocked_message("verify"@, result.text),
            ),
            _ => refused(s, Seq::empty(), INVALID_VERIFY@),
        },
        Err(ErrorView::Escalation(reason)) => done(escalated(s, reason), seq![EffectView::Persist]),
        Err(e) => passed_on(s, e),
    }
}

/// An agenda check by view.
pub open spec fn checked(r: Option<Result<usize, Failure>>) -> Option<Result<usize, Seq<char>>> {
    match r {
        Some(Ok(n)) => Some(Ok(n)),
        Some(Err(e)) => Some(Err(e.message@)),
        None => None,
    }
}

fn verification_passed(state: &mut RunState, check: Option<Result<usize, Failure>>, cycles: u32) -> (r:
    Step)
    requires
        old(state).verify_retries < u32::MAX,
    ensures
        r.with(final(state)@) == verified(old(state)@, checked(check), cycles),
{
    match check {
        Some(Err(e)) => {
            state.verify_retries = state.verify_retries + 1;
            let n = decimal_text(cycles as u64);
            if state.verify_retries > cycles {
                return Step {
                    effects: effects0(),
                    result: refuse(
                        cat3(
                            "bootstrap agenda still failed its structural postcondition after ",
                            n.as_str(),
                            " repair cycle(s): ",
                        ).concat(e.message.as_str()),
                    ),
                };
            }
            state.pending_repair = Some(
                cat3(
                    "OpenSpec verification reported success, but the deterministic bootstrap agenda check failed: ",
                    e.message.as_str(),
                    ". Correct the agenda without implementing product code.",
                ),
            );
            state.stage = Stage::Repair;
            let shown = fraction_text(state.verify_retries, cycles);
            let warning = cat3("Bootstrap agenda requires structural repair ", shown.as_str(), ": ")
                .concat(e.message.as_str());
            Step { effects: effects2(Effect::Persist, Effect::Warn(warning)), result: Ok(()) }
        },
        Some(Ok(count)) => {
            let n = decimal_text(count as u64);
            let praise = Effect::Success(
                cat3("Bootstrap agenda passed structural checks (", n.as_str(), " slices)"),
            );
            let passed = Effect::Success("Verification passed".to_owned());
            state.pending_repair = None;
            match state.stage.after_verified() {
                Ok(next) => {
                    state.stage = next;
                    Step { effects: effects3(praise, passed, Effect::Persist), result: Ok(()) }
                },
                Err(e) => Step { effects: effects2(praise, passed), result: Err(as_error(e)) },
            }
        },
        None => {
            let passed = Effect::Success("Verification passed".to_owned());
            state.pending_repair = None;
            match state.stage.after_verified() {
                Ok(next) => {
                    state.stage = next;
                    Step { effects: effects2(passed, Effect::Persist), result: Ok(()) }
                },
                Err(e) => Step { effects: effects1(passed), result: Err(as_error(e)) },
            }
        },
    }
}

fn repair_requested(state: &mut RunState, findings: String, cycles: u32, frontier_terminal: bool) -> (r:
    Step)
    requires
        old(state).verify_retries < u32::MAX,
    ensures
        r.with(final(state)@) == retried(old(state)@, findings@, cycles, frontier_terminal),
{
    state.verify_retries = state.verify_retries + 1;
    state.pending_repair = Some(findings.clone());
    if state.verify_retries > cycles {
        let n = decimal_text(cycles as u64);
        let summary = if frontier_terminal {
            let bare = trim(findings.as_str());
            cat3(
                "frontier acceptance review still found material project-goal gaps after ",
                n.as_str(),
                " frontier repair cycle(s); insert bounded remediation slices before the terminal gate. Latest findings:\n",
            ).concat(bare.as_str())
        } else {
            cat3(
                "local worker exhausted ",
                n.as_str(),
                " verification repair cycle(s); the failed attempt requires frontier subdivision",
            )
        };
        record_too_large(state, summary);
        return Step { effects: effects1(Effect::Persist), result: Ok(()) };
    }
    state.stage = Stage::Repair;
    let shown = fraction_text(state.verify_retries, cycles);
    let warning = cat2("Verification requested repair ", shown.as_str());
    Step { effects: effects2(Effect::Persist, Effect::Warn(warning)), result: Ok(()) }
}

pub fn verify_result(
    state: &mut RunState,
    outcome: Result<StageResult, AgentError>,
    check: Option<Result<usize, Failure>>,
    max_verify_retries: u32,
    frontier_terminal: bool,
) -> (r: Step)
    requires
        old(state).verify_retries < u32::MAX,
    ensures
        r.with(final(state)@) == judged(
            old(state)@,
            answer(outcome),
            checked(check),
            max_verify_retries,
            frontier_terminal,
        ),
        final(state)@.stage == Stage::Archive && old(state)@.stage != Stage::Archive ==> (answer(
            outcome,
        ) matches Ok(a) && a.signal == StageSignal::Verified),
{
    match outcome {
        Ok(result) => match result.signal {
            StageSignal::Verified => verification_passed(state, check, max_verify_retries),
            StageSignal::Retry => repair_requested(
                state,
                result.text,
                max_verify_retries,
                frontier_terminal,
            ),
            StageSignal::Blocked => Step {
                effects: effects0(),
                result: refuse(blocked("verify", result.text.as_str())),
            },
            _ => Step { effects: effects0(), result: refuse(INVALID_VERIFY.to_owned()) },
        },
        Err(AgentError::Escalation { reason }) => {
            record_too_large(state, reason);
            Step { effects: effects1(Effect::Persist), result: Ok(()) }
        },
        Err(e) => Step { effects: effects0(), result: Err(e) },
    }
}

/// A repair is begun only while the number of repairs stays within the limit; beyond it
/// the work is handed on. Either way exactly one more cycle is counted.
pub proof fn law_repairs_are_bounded(
    s: RunStateView,
    findings: Seq<char>,
    cycles: u32,
    frontier_terminal: bool,
)
    requires
        s.verify_retries < u32::MAX,
        s.stage == Stage::Verify,
        s.too_large is None,
    ensures
        ({
            let t = retried(s, findings, cycles, frontier_terminal).state;
            &&& t.verify_retries == s.verify_retries + 1
            &&& t.stage == Stage::Repair ==> t.verify_retries <= cycles && t.too_large is None
            &&& t.stage != Stage::Repair ==> t.too_large is Some && t.verify_retries > cycles
        }),
{
}

// Repair

/// Whether the repair cycles are used up and no direction reopens them.
pub open spec fn repairs_exhausted(s: RunStateView, cycles: u32) -> bool {
    s.verify_retries > cycles && s.pending_direction is None
}

/// Why repair is given up.
pub open spec fn exhausted_repair(frontier_terminal: bool, cycles: u32) -> Seq<char> {
    if frontier_terminal {
        "frontier terminal acceptance exhausted "@ + decimal(cycles as nat)
            + " verification repair cycle(s); the remaining findings require bounded remediation slices before the terminal gate"@
    } else {
        "local worker exhausted "@ + decimal(cycles as nat)
            + " verification repair cycle(s); the failed attempt requires frontier subdivision"@
    }
}

/// Gives repair up where its cycles are used up.
pub fn repair_start(state: &mut RunState, max_verify_retries: u32, frontier_terminal: bool) -> (r:
    Option<Step>)
    ensures
        match r {
            Some(step) => repairs_exhausted(old(state)@, max_verify_retries) && step.with(
                final(state)@,
            ) == done(
                escalated(old(state)@, exhausted_repair(frontier_terminal, max_verify_retries)),
                seq![EffectView::Persist],
            ),
            None => !repairs_exhausted(old(state)@, max_verify_retries) && final(state)@ == old(
                state,
            )@,
        },
{
    if state.verify_retries > max_verify_retries && state.pending_direction.is_none() {
        let n = decimal_text(max_verify_retries as u64);
        let summary = if frontier_terminal {
            cat3(
                "frontier terminal acceptance exhausted ",
                n.as_str(),
                " verification repair cycle(s); the remaining findings require bounded remediation slices before the terminal gate",
            )
        } else {
            cat3(
                "local worker exhausted ",
                n.as_str(),
                " verification repair cycle(s); the failed attempt requires frontier subdivision",
            )
        };
        record_too_large(state, summary);
        return Some(Step { effects: effects1(Effect::Persist), result: Ok(()) });
    }
    None
}

/// What the verifier found, or that it found nothing.
pub open spec fn finding_of(s: RunStateView) -> Seq<char> {
    match s.pending_repair {
        Some(finding) => finding,
        None => NO_FINDING@,
    }
}

pub fn repair_turn(
    state: &RunState,
    change: &str,
    command: &str,
    frontier_terminal: bool,
    fresh_id: &str,
    harness: &Harness,
) -> (r: Turn)
    ensures
        r@ == (TurnView {
            session: fresh(
                fresh_id@,
                change@ + "-repair-"@ + decimal(state@.verify_retries as nat),
            ),
            prompt: prompt_of(
                command@,
                with_guidance(
                    with_workspace(
                        state@.product_repo,
                        repairing(
                            state@.bootstrap,
                            frontier_terminal,
                            change@,
                            finding_of(state@),
                        ),
                        harness@,
                    ),
                    state@.pending_direction,
                ),
                StageProtocol::Worker,
            ),
            activity: if frontier_terminal {
                "Frontier agent is repairing whole-project acceptance"@
            } else {
                "Worker agent is repairing the implementation"@
            },
            protocol: StageProtocol::Worker,
        }),
        contains_text(r@.prompt, change@),
        state@.pending_repair matches Some(finding) ==> contains_text(r@.prompt, finding),
        state@.pending_direction matches Some(d) ==> contains_text(r@.prompt, d),
        state@.product_repo matches Some(p) ==> contains_text(r@.prompt, p),
        r@.session is New && r@.session.id() == fresh_id@,
{
    proof {
        let base = repairing(state@.bootstrap, frontier_terminal, change@, finding_of(state@));
        law_stages_are_told_their_change(
            state@.bootstrap,
            frontier_terminal,
            change@,
            finding_of(state@),
        );
        lemma_told_in_turn(
            base,
            change@,
            state@.pending_direction,
            state@.product_repo,
            command@,
            StageProtocol::Worker,
            harness@,
        );
        lemma_told_in_turn(
            base,
            finding_of(state@),
            state@.pending_direction,
            state@.product_repo,
            command@,
            StageProtocol::Worker,
            harness@,
        );
    }
    let finding = match &state.pending_repair {
        Some(finding) => finding.as_str(),
        None => NO_FINDING,
    };
    let base = repair_task(state.bootstrap, frontier_terminal, change, finding);
    let placed = with_sidecar_context(state, base.as_str(), harness);
    let direction = match &state.pending_direction {
        Some(d) => Some(d.as_str()),
        None => None,
    };
    let subject = with_direction(placed.as_str(), direction);
    let number = decimal_text(state.verify_retries as u64);
    let name = cat3(change, "-repair-", number.as_str());
    Turn {
        session: fresh_session(fresh_id, name.as_str()),
        prompt: stage_prompt(command, subject.as_str(), StageProtocol::Worker),
        activity: if frontier_terminal {
            "Frontier agent is repairing whole-project acceptance".to_owned()
        } else {
            "Worker agent is repairing the implementation".to_owned()
        },
        protocol: StageProtocol::Worker,
    }
}

/// What the answer of the repair stage leads to. A repair uses up its findings and its
/// direction.
pub open spec fn repaired(s: RunStateView, outcome: Result<ResultView, ErrorView>) -> StepView {
    worked(
        s,
        "repair"@,
        outcome,
        RunStateView { pending_repair: None, pending_direction: None, ..s },
    )
}

pub fn repair_result(state: &mut RunState, outcome: Result<StageResult, AgentError>) -> (r: Step)
    ensures
        r.with(final(state)@) == repaired(old(state)@, answer(outcome)),
        final(state)@.stage != old(state)@.stage ==> (answer(outcome) matches Ok(a) && a.signal
            == StageSignal::Ready),
{
    match unready(state, "repair", outcome) {
        Some(step) => step,
        None => {
            state.pending_repair = None;
            state.consume_direction();
            advance(state)
        },
    }
}

// Archive

pub fn archive_turn(
    state: &RunState,
    change: &str,
    command: &str,
    retrying: bool,
    fresh_id: &str,
    harness: &Harness,
) -> (r: Turn)
    ensures
        r@ == (TurnView {
            session: fresh(fresh_id@, change@ + "-archive"@),
            prompt: prompt_of(
                command@,
                with_workspace(state@.product_repo, archiving(change@), harness@) + (if retrying {
                    ARCHIVE_RECOVERY@
                } else {
                    Seq::empty()
                }),
                StageProtocol::Ready,
            ),
            activity: if retrying {
                "Worker agent is retrying the OpenSpec archive"@
            } else {
                "Worker agent is archiving the OpenSpec change"@
            },
            protocol: StageProtocol::Ready,
        }),
{
    let base = archive_subject(change);
    let placed = with_sidecar_context(state, base.as_str(), harness);
    let subject = if retrying {
        placed.concat(ARCHIVE_RECOVERY)
    } else {
        assert(placed@ + Seq::<char>::empty() =~= placed@);
        placed
    };
    let name = cat2(change, "-archive");
    Turn {
        session: fresh_session(fresh_id, name.as_str()),
        prompt: stage_prompt(command, subject.as_str(), StageProtocol::Ready),
        activity: if retrying {
            "Worker agent is retrying the OpenSpec archive".to_owned()
        } else {
            "Worker agent is archiving the OpenSpec change".to_owned()
        },
        protocol: StageProtocol::Ready,
    }
}

/// What an answer of the archive stage leads to.
pub enum ArchiveAnswer {
    /// The stage is over.
    Over(Step),
    /// The active changes have to say whether the archive was made after all.
    Inspect(AgentError),
}

pub fn archive_answered(state: &mut RunState, outcome: Result<StageResult, AgentError>) -> (r:
    ArchiveAnswer)
    ensures
        final(state)@.stage != old(state)@.stage ==> (answer(outcome) matches Ok(a) && a.signal
            == StageSignal::Ready),
        r matches ArchiveAnswer::Over(step) && step.result is Ok ==> (answer(outcome) matches Ok(a)
            && a.signal == StageSignal::Ready),
        r is Inspect ==> answer(outcome) is Err && final(state)@ == old(state)@,
        match answer(outcome) {
            Ok(result) => r matches ArchiveAnswer::Over(step) && step.with(final(state)@) == (
            match readiness("archive"@, result.text, result.signal) {
                Ok(()) => advanced(old(state)@, old(state)@),
                Err(e) => passed_on(old(state)@, e),
            }),
            Err(ErrorView::Pause) => r matches ArchiveAnswer::Over(step) && step.with(
                final(state)@,
            ) == passed_on(old(state)@, ErrorView::Pause),
            Err(e) => r matches ArchiveAnswer::Inspect(error) && error@ == e && final(state)@ == old(
                state,
            )@,
        },
{
    match outcome {
        Ok(result) => match require_ready("archive", result.text.as_str(), result.signal) {
            Ok(()) => ArchiveAnswer::Over(advance(state)),
            Err(e) => ArchiveAnswer::Over(Step { effects: effects0(), result: Err(e) }),
        },
        Err(AgentError::Pause) => ArchiveAnswer::Over(
            Step { effects: effects0(), result: Err(AgentError::Pause) },
        ),
        Err(e) => ArchiveAnswer::Inspect(e),
    }
}

/// What the active changes say of an archive without a result.
pub enum ArchiveVerdict {
    Over(Step),
    /// Try once more, after these messages.
    Retry(Vec<Effect>),
}

pub const ARCHIVE_ACCEPTED: &'static str = "Archive completed but the worker agent omitted its terminal result; accepting OpenSpec state";

pub const ARCHIVE_RETRIED: &'static str = "The worker agent omitted its Archive terminal result while the change remains active; retrying once in a fresh session";

/// The sentence that an error shows.
pub open spec fn error_text(e: ErrorView) -> Seq<char> {
    match e {
        ErrorView::Pause => "paused"@,
        ErrorView::Escalation(reason) => reason,
        ErrorView::MissingTerminal(message) => message,
        ErrorView::Other(message) => message,
    }
}

pub fn error_message(e: &AgentError) -> (r: String)
    ensures
        r@ == error_text(e@),
{
    match e {
        AgentError::Pause => "paused".to_owned(),
        AgentError::Escalation { reason } => reason.clone(),
        AgentError::MissingTerminal { result } => result.message(),
        AgentError::Other { message } => message.clone(),
    }
}

/// Whether an archive is tried again: only the result was missing, the change is known
/// to be active still, and the archive was not tried again before.
pub open spec fn archive_retried(
    outcome: Result<ResultView, ErrorView>,
    absent: Option<bool>,
    retrying: bool,
) -> bool {
    outcome is Err && outcome->Err_0 is MissingTerminal && absent == Some(false) && !retrying
}

/// Decides an archive without a result, by whether the change is still active. An
/// absent change was archived; a present one is tried once more where only the result
/// was missing; and where the active changes are not known either, both errors are
/// reported.
pub fn archive_inspected(
    state: &mut RunState,
    error: AgentError,
    absent: Result<bool, Failure>,
    retrying: bool,
) -> (r: ArchiveVerdict)
    ensures
        r is Retry <==> archive_retried(
            Err(error@),
            match absent {
                Ok(known) => Some(known),
                Err(_) => None,
            },
            retrying,
        ),
        final(state)@ != old(state)@ ==> absent == Ok::<bool, Failure>(true),
        r matches ArchiveVerdict::Over(step) && step.result is Ok ==> absent == Ok::<
            bool,
            Failure,
        >(true),
        old(state)@.stage == Stage::Archive && absent == Ok::<bool, Failure>(true) ==> final(state)@.stage
            == Stage::FinalCommit,
        match absent {
            Ok(true) => r matches ArchiveVerdict::Over(step) && step.with(final(state)@) == ({
                let next = advanced(old(state)@, old(state)@);
                StepView { effects: seq![EffectView::Warn(ARCHIVE_ACCEPTED@)] + next.effects, ..next }
            }),
            Ok(false) => if !retrying && error@ is MissingTerminal {
                r matches ArchiveVerdict::Retry(effects) && crate::text::seen_all(effects@) == seq![
                    EffectView::Warn(ARCHIVE_RETRIED@),
                ] && final(state)@ == old(state)@
            } else {
                r matches ArchiveVerdict::Over(step) && step.with(final(state)@) == passed_on(
                    old(state)@,
                    error@,
                )
            },
            Err(check) => r matches ArchiveVerdict::Over(step) && step.with(final(state)@)
                == passed_on(
                old(state)@,
                ErrorView::Other(
                    "could not also confirm archive state: "@ + check.message@ + ": "@
                        + error_text(error@),
                ),
            ),
        },
{
    match absent {
        Ok(true) => {
            let next = advance(state);
            let mut effects = effects1(Effect::Warn(ARCHIVE_ACCEPTED.to_owned()));
            let mut rest = next.effects;
            proof {
                assert(crate::text::seen_all(effects@ + rest@) =~= crate::text::seen_all(effects@)
                    + crate::text::seen_all(rest@));
            }
            effects.append(&mut rest);
            ArchiveVerdict::Over(Step { effects, result: next.result })
        },
        Ok(false) => {
            if !retrying && crate::backend::is_missing_terminal_result(&error) {
                ArchiveVerdict::Retry(effects1(Effect::Warn(ARCHIVE_RETRIED.to_owned())))
            } else {
                ArchiveVerdict::Over(Step { effects: effects0(), result: Err(error) })
            }
        },
        Err(check) => {
            let text = error_message(&error);
            let message = cat3(
                "could not also confirm archive state: ",
                check.message.as_str(),
                ": ",
            ).concat(text.as_str());
            ArchiveVerdict::Over(Step { effects: effects0(), result: refuse(message) })
        },
    }
}

/// How many turns an archive takes, where each is answered like this and the active
/// changes then say this, if they are known.
pub open spec fn archive_turns(
    turns: Seq<(Result<ResultView, ErrorView>, Option<bool>)>,
    retrying: bool,
) -> nat
    decreases turns.len(),
{
    if turns.len() == 0 {
        0
    } else if archive_retried(turns[0].0, turns[0].1, retrying) {
        1 + archive_turns(turns.skip(1), true)
    } else {
        1
    }
}

/// An archive has at most two turns, whatever is answered: one without a result is tried
/// again once, and the second stands.
pub proof fn law_an_archive_has_at_most_two_turns(
    turns: Seq<(Result<ResultView, ErrorView>, Option<bool>)>,
)
    ensures
        archive_turns(turns, false) <= 2,
        archive_turns(turns, true) <= 1,
        forall|outcome: Result<ResultView, ErrorView>, absent: Option<bool>|
            !#[trigger] archive_retried(outcome, absent, true),
{
    reveal_with_fuel(archive_turns, 3);
}

// Completion commit

pub fn final_commit_turn(state: &RunState, change: &str, fresh_id: &str) -> (r: Turn)
    ensures
        r@ == (TurnView {
            session: fresh(fresh_id@, change@ + "-completion-commit"@),
            prompt: prompt_of(
                Seq::empty(),
                completion_committing(state@, change@),
                StageProtocol::Ready,
            ),
            activity: "Worker agent is committing the completed change"@,
            protocol: StageProtocol::Ready,
        }),
{
    let task = final_commit_task(state, change);
    let name = cat2(change, "-completion-commit");
    proof {
        reveal_strlit("");
        assert(""@ =~= Seq::empty());
    }
    Turn {
        session: fresh_session(fresh_id, name.as_str()),
        prompt: stage_prompt("", task.as_str(), StageProtocol::Ready),
        activity: "Worker agent is committing the completed change".to_owned(),
        protocol: StageProtocol::Ready,
    }
}

/// What the completion milestone in the planning repository is called.
pub fn final_milestone(state: &RunState) -> (r: &'static str)
    ensures
        r@ == (if state@.product_repo is Some {
            "sidecar archive"@
        } else {
            "completion"@
        }),
{
    if state.product_repo.is_some() {
        "sidecar archive"
    } else {
        "completion"
    }
}

/// What the completion commits lead to.
pub open spec fn completion_kept(
    s: RunStateView,
    planning_head: Option<Seq<char>>,
    product_head: Option<Seq<char>>,
) -> StepView {
    advanced(
        s,
        if s.product_repo is Some {
            RunStateView { final_head: product_head, planning_final_head: planning_head, ..s }
        } else {
            RunStateView { final_head: planning_head, ..s }
        },
    )
}

/// Records the completion commits and moves on. The planning repository has one of its
/// own only where the product is elsewhere.
pub fn final_committed(state: &mut RunState, planning_head: Option<String>, product_head: Option<String>) -> (r:
    Step)
    ensures
        r.with(final(state)@) == completion_kept(
            old(state)@,
            text_option(planning_head),
            text_option(product_head),
        ),
{
    if state.product_repo.is_some() {
        state.final_head = product_head;
        state.planning_final_head = planning_head;
    } else {
        state.final_head = planning_head;
    }
    advance(state)
}

// What the stages keep

/// The report that is recorded where work does not fit: the stage that it comes from, and
/// what was said.
pub open spec fn reported(r: StepView, s: RunStateView, said: Seq<char>) -> bool {
    &&& r.result is Ok
    &&& r.state == (RunStateView {
        too_large: Some(TooLargeView { stage: s.stage, summary: said }),
        ..s
    })
    &&& r.effects == seq![EffectView::Persist]
}

/// Whether a step fails, leaves the state as it was and asks for nothing.
pub open spec fn fails_untouched(r: StepView, s: RunStateView) -> bool {
    r.result is Err && r.state == s && r.effects.len() == 0
}

/// A workflow leaves its verification for the archive only on an answer that says VERIFIED,
/// and not where the agenda of a bootstrap fails its own check. A blocked answer, one that
/// verification does not know, and an error leave everything as it was.
pub proof fn law_only_verified_work_is_archived(
    s: RunStateView,
    outcome: Result<ResultView, ErrorView>,
    check: Option<Result<usize, Seq<char>>>,
    cycles: u32,
    frontier_terminal: bool,
)
    requires
        s.stage == Stage::Verify,
        s.verify_retries < u32::MAX,
    ensures
        ({
            let r = judged(s, outcome, check, cycles, frontier_terminal);
            let passed = (outcome matches Ok(a) && a.signal == StageSignal::Verified) && !(
            check matches Some(Err(_)));
            &&& r.state.stage == Stage::Archive <==> passed
            &&& passed ==> r.result is Ok && r.state == (RunStateView {
                stage: Stage::Archive,
                pending_repair: None,
                ..s
            }) && r.effects.last() == EffectView::Persist
            &&& r.state.stage == Stage::Archive || r.state.stage == Stage::Repair || r.state.stage
                == Stage::Verify
            &&& (outcome matches Ok(a) && a.signal != StageSignal::Verified && a.signal
                != StageSignal::Retry) ==> fails_untouched(r, s)
            &&& (outcome matches Ok(a) && a.signal == StageSignal::Blocked) ==> (
            r.result matches Err(ErrorView::Other(message)) && trimmed(
                outcome->Ok_0.text,
            ).is_suffix_of(message))
            &&& (outcome matches Err(e) && !(e is Escalation)) ==> fails_untouched(r, s)
                && r.result == Err::<(), ErrorView>(outcome->Err_0)
            &&& (outcome matches Err(ErrorView::Escalation(reason))) ==> reported(
                r,
                s,
                outcome->Err_0->Escalation_0,
            )
        }),
{
    if outcome is Ok && outcome->Ok_0.signal == StageSignal::Blocked {
        let text = trimmed(outcome->Ok_0.text);
        let message = blocked_message("verify"@, outcome->Ok_0.text);
        assert(message.subrange(message.len() - text.len(), message.len() as int) =~= text);
    }
}

/// A verification that asks for repair, or whose agenda fails its check, is counted. It
/// leads to a repair that is told what was found while cycles are left; with none left the
/// work is reported as too large, or a bootstrap fails. Nothing else of the state changes.
pub proof fn law_findings_reach_the_repair(
    s: RunStateView,
    outcome: Result<ResultView, ErrorView>,
    check: Option<Result<usize, Seq<char>>>,
    cycles: u32,
    frontier_terminal: bool,
)
    requires
        s.stage == Stage::Verify,
        s.verify_retries < u32::MAX,
        s.too_large is None,
    ensures
        ({
            let r = judged(s, outcome, check, cycles, frontier_terminal);
            let asked = outcome matches Ok(a) && a.signal == StageSignal::Retry;
            let unsound = (outcome matches Ok(a) && a.signal == StageSignal::Verified) && (
            check matches Some(Err(_)));
            &&& r.state.verify_retries == s.verify_retries + (if asked || unsound {
                1int
            } else {
                0int
            })
            &&& asked ==> r.result is Ok && r.state.pending_repair == Some(outcome->Ok_0.text)
                && r.effects.contains(EffectView::Persist)
            &&& asked && s.verify_retries < cycles ==> r.state.stage == Stage::Repair
                && r.state.too_large is None
            &&& asked && s.verify_retries >= cycles ==> r.state.stage == Stage::Verify && (
            r.state.too_large matches Some(t) && t.stage == Stage::Verify)
            &&& asked && s.verify_retries >= cycles && frontier_terminal ==> trimmed(
                outcome->Ok_0.text,
            ).is_suffix_of(r.state.too_large->0.summary)
            &&& unsound && s.verify_retries < cycles ==> r.result is Ok && r.state.stage
                == Stage::Repair && (r.state.pending_repair matches Some(told) && exists|i: int|
                #[trigger] crate::text::occurs_at(told, check->0->Err_0, i))
            &&& unsound && s.verify_retries >= cycles ==> r.result is Err && r.state.stage
                == Stage::Verify
            &&& (RunStateView {
                stage: s.stage,
                verify_retries: s.verify_retries,
                pending_repair: s.pending_repair,
                too_large: s.too_large,
                ..r.state
            }) == s
        }),
{
    let r = judged(s, outcome, check, cycles, frontier_terminal);
    if outcome is Ok && outcome->Ok_0.signal == StageSignal::Retry {
        assert(r.effects[0] == EffectView::Persist);
        if s.verify_retries >= cycles && frontier_terminal {
            let text = trimmed(outcome->Ok_0.text);
            let message = r.state.too_large->0.summary;
            assert(message.subrange(message.len() - text.len(), message.len() as int) =~= text);
        }
    }
    if outcome is Ok && outcome->Ok_0.signal == StageSignal::Verified && check is Some
        && check->0 is Err && s.verify_retries < cycles {
        let error = check->0->Err_0;
        let told = r.state.pending_repair->0;
        let head = "OpenSpec verification reported success, but the deterministic bootstrap agenda check failed: "@;
        let at = head.len() as int;
        assert(told.subrange(at, at + error.len()) =~= error);
        assert(crate::text::occurs_at(told, error, at));
    }
}

/// Applying and repairing. Work moves on to its verification only on an answer that says
/// READY, which uses up the direction that it was given, and a repair its findings too. An
/// answer that the work is too large, or an escalation by the operator, is recorded with
/// the stage and what was said, and the stage stays. Every other answer leaves everything
/// as it was.
pub proof fn law_only_ready_work_is_verified(
    s: RunStateView,
    outcome: Result<ResultView, ErrorView>,
)
    ensures
        ({
            let a = applied(s, outcome);
            let b = repaired(s, outcome);
            let ready = outcome matches Ok(x) && x.signal == StageSignal::Ready;
            let large = outcome matches Ok(x) && x.signal == StageSignal::TooLarge;
            &&& s.stage == Stage::Apply && ready ==> a.result is Ok && a.state == (RunStateView {
                stage: Stage::Verify,
                pending_direction: None,
                ..s
            }) && a.effects == seq![EffectView::Persist]
            &&& s.stage == Stage::Repair && ready ==> b.result is Ok && b.state == (RunStateView {
                stage: Stage::Verify,
                pending_direction: None,
                pending_repair: None,
                ..s
            }) && b.effects == seq![EffectView::Persist]
            &&& !ready ==> a.state.stage == s.stage && b.state.stage == s.stage
                && a.state.pending_direction == s.pending_direction && b.state.pending_direction
                == s.pending_direction && b.state.pending_repair == s.pending_repair
            &&& large ==> reported(a, s, outcome->Ok_0.text) && reported(b, s, outcome->Ok_0.text)
            &&& (outcome matches Err(ErrorView::Escalation(_))) ==> reported(
                a,
                s,
                outcome->Err_0->Escalation_0,
            ) && reported(b, s, outcome->Err_0->Escalation_0)
            &&& outcome is Ok && !ready && !large ==> fails_untouched(a, s) && fails_untouched(b, s)
            &&& (outcome matches Ok(x) && x.signal == StageSignal::Blocked) ==> (
            a.result matches Err(ErrorView::Other(m)) && trimmed(outcome->Ok_0.text).is_suffix_of(
                m,
            )) && (b.result matches Err(ErrorView::Other(m)) && trimmed(
                outcome->Ok_0.text,
            ).is_suffix_of(m))
            &&& (outcome matches Err(e) && !(e is Escalation)) ==> fails_untouched(a, s)
                && fails_untouched(b, s) && a.result == Err::<(), ErrorView>(outcome->Err_0)
                && b.result == Err::<(), ErrorView>(outcome->Err_0)
        }),
{
    if outcome is Ok && outcome->Ok_0.signal == StageSignal::Blocked {
        let text = trimmed(outcome->Ok_0.text);
        let m = blocked_message("apply"@, outcome->Ok_0.text);
        let n = blocked_message("repair"@, outcome->Ok_0.text);
        assert(m.subrange(m.len() - text.len(), m.len() as int) =~= text);
        assert(n.subrange(n.len() - text.len(), n.len() as int) =~= text);
    }
}

/// Exploring. A proposal follows only an answer that says READY; an oversized piece of work
/// is recorded; and whatever was answered, planning goes on in the conversation that
/// answered.
pub proof fn law_only_ready_exploration_is_proposed(
    s: RunStateView,
    session: Seq<char>,
    outcome: Result<ResultView, ErrorView>,
)
    requires
        s.stage == Stage::Explore,
    ensures
        ({
            let r = explored(s, session, outcome);
            let ready = outcome matches Ok(x) && x.signal == StageSignal::Ready;
            let large = outcome matches Ok(x) && x.signal == StageSignal::TooLarge;
            let id = match outcome {
                Ok(x) => match x.session_id {
                    Some(named) => Some(named),
                    None => Some(session),
                },
                Err(_) => s.planning_session,
            };
            &&& r.state.stage == (if ready {
                Stage::Propose
            } else {
                Stage::Explore
            })
            &&& r.state.planning_session == id
            &&& ready ==> r.result is Ok && r.effects == seq![
                EffectView::Persist,
                EffectView::Compact(id->0, "Explore"@),
            ]
            &&& large ==> r.result is Ok && r.state.too_large == Some(
                TooLargeView { stage: Stage::Explore, summary: outcome->Ok_0.text },
            )
            &&& (outcome matches Err(ErrorView::Escalation(_))) ==> reported(
                r,
                s,
                outcome->Err_0->Escalation_0,
            )
            &&& !large && !(outcome matches Err(ErrorView::Escalation(_))) ==> r.state.too_large
                == s.too_large
            &&& outcome is Ok && !ready && !large ==> r.result is Err
            &&& outcome is Ok ==> r.effects.len() > 0 && r.effects[0] == EffectView::Persist
            &&& (outcome matches Err(e) && !(e is Escalation)) ==> fails_untouched(r, s)
                && r.result == Err::<(), ErrorView>(outcome->Err_0)
            &&& (RunStateView {
                stage: s.stage,
                planning_session: s.planning_session,
                too_large: s.too_large,
                ..r.state
            }) == s
        }),
{
}

/// The milestones. A commit counts as made only where its agent said READY; its head is
/// recorded, and the next stage follows. Where the product is in a repository of its own,
/// the final head is the product's and the planning repository's is kept beside it.
pub proof fn law_milestones_are_recorded(
    s: RunStateView,
    head: Option<Seq<char>>,
    product_head: Option<Seq<char>>,
    stage: Seq<char>,
    outcome: Result<ResultView, ErrorView>,
)
    ensures
        milestone_outcome(stage, outcome) is Ok <==> (outcome matches Ok(a) && a.signal
            == StageSignal::Ready),
        outcome is Err ==> milestone_outcome(stage, outcome) == Err::<(), ErrorView>(
            outcome->Err_0,
        ),
        s.stage == Stage::ProposalCommit ==> proposal_kept(s, head) == (StepView {
            state: RunStateView { stage: Stage::Apply, proposal_head: head, ..s },
            effects: seq![EffectView::Persist],
            result: Ok(()),
        }),
        s.stage == Stage::FinalCommit && s.product_repo is None ==> completion_kept(
            s,
            head,
            product_head,
        ) == (StepView {
            state: RunStateView { stage: Stage::Complete, final_head: head, ..s },
            effects: seq![EffectView::Persist],
            result: Ok(()),
        }),
        s.stage == Stage::FinalCommit && s.product_repo is Some ==> completion_kept(
            s,
            head,
            product_head,
        ) == (StepView {
            state: RunStateView {
                stage: Stage::Complete,
                final_head: product_head,
                planning_final_head: head,
                ..s
            },
            effects: seq![EffectView::Persist],
            result: Ok(()),
        }),
{
}

/// A repair is given up only where its cycles are used up, and direction reopens it.
pub proof fn law_direction_reopens_repair(s: RunStateView, cycles: u32)
    ensures
        s.pending_direction is Some ==> !repairs_exhausted(s, cycles),
        s.verify_retries <= cycles ==> !repairs_exhausted(s, cycles),
        s.pending_direction is None && s.verify_retries > cycles ==> repairs_exhausted(s, cycles),
        s.pending_repair is Some ==> finding_of(s) == s.pending_repair->0,
{
}

/// An archive is tried again only where nothing but the result was missing and the change
/// is still active.
pub proof fn law_archives_are_not_repeated(
    outcome: Result<ResultView, ErrorView>,
    absent: Option<bool>,
)
    ensures
        archive_retried(outcome, absent, false) ==> outcome is Err && absent == Some(false),
        outcome is Ok ==> !archive_retried(outcome, absent, false),
        outcome matches Err(e) && !(e is MissingTerminal) ==> !archive_retried(
            outcome,
            absent,
            false,
        ),
        outcome matches Err(ErrorView::MissingTerminal(_)) ==> archive_retried(
            outcome,
            Some(false),
            false,
        ),
{
}

} // verus!
