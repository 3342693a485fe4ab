//! The proposal stage: one planning turn, and one more where its result does not hold
//! up against the repository.
use crate::agenda::{is_kebab, kebab};
use crate::backend::{AgentError, SessionId, SessionMode, StageProtocol, StageResult, StageSignal};
use crate::effect::{
    answer, blocked, blocked_message, done, effects0, effects1, effects4, refuse, refused,
    unexpected, unexpected_message, Effect, EffectView, ErrorView, ResultView, Step, StepView, Turn,
    TurnView,
};
use crate::failure::{fail, failed, Failure};
use crate::openspec::{ChangeSnapshot, PlanningStatus};
use crate::prompts::{prompt_of, proposal_postcondition_repair, repaired_proposal, stage_prompt};
use crate::stage::{follows_propose, stage_after_propose, Stage};
use crate::stages::{escalated, next_session, passed_on, record_too_large, session_after};
use crate::state::{RunState, RunStateView};
use crate::text::{
    cat2, cat3, cat5, chars_of, join, joined, seen_all, text_option, texts, trim, trimmed,
};
use vstd::prelude::*;
use vstd::string::*;

verus! {

/// A name that a change may have: small letters, digits and hyphens, with no hyphen at
/// either end.
pub open spec fn valid_change_name(name: Seq<char>) -> bool {
    name.len() > 0 && kebab(name) && name[0] != '-' && name.last() != '-'
}

pub fn validate_change_name(change: &str) -> (r: Result<(), Failure>)
    ensures
        match r {
            Ok(()) => valid_change_name(change@),
            Err(e) => !valid_change_name(change@) && e.message@
                == "OpenSpec returned unsafe change name `"@ + change@
                + "`; expected lowercase kebab-case"@,
        },
{
    let v = chars_of(change);
    if v.len() > 0 && is_kebab(change) && v[0] != '-' && v[v.len() - 1] != '-' {
        Ok(())
    } else {
        fail(
            cat3(
                "OpenSpec returned unsafe change name `",
                change,
                "`; expected lowercase kebab-case",
            ),
        )
    }
}

pub const UNSATISFIED: &'static str = "The preceding READY result did not satisfy the deterministic OpenSpec postcondition.";

/// What the proposal stage tells its agent, in its first turn or in the corrective one.
pub open spec fn propose_prompt(base: Seq<char>, retrying: bool) -> Seq<char> {
    if retrying {
        repaired_proposal(base, UNSATISFIED@)
    } else {
        base
    }
}

pub open spec fn propose_activity(retrying: bool, frontier_terminal: bool) -> Seq<char> {
    if retrying && frontier_terminal {
        "Frontier agent is correcting the terminal acceptance proposal"@
    } else if retrying {
        "Worker agent is correcting the incomplete proposal"@
    } else if frontier_terminal {
        "Frontier agent is defining final project acceptance"@
    } else {
        "Worker agent is creating OpenSpec artifacts"@
    }
}

pub fn propose_turn(
    session: SessionMode,
    command: &str,
    base: &str,
    retrying: bool,
    frontier_terminal: bool,
) -> (r: Turn)
    ensures
        r@ == (TurnView {
            session: session@,
            prompt: prompt_of(
                command@,
                propose_prompt(base@, retrying),
                StageProtocol::Propose,
            ),
            activity: propose_activity(retrying, frontier_terminal),
            protocol: StageProtocol::Propose,
        }),
{
    let subject = if retrying {
        proposal_postcondition_repair(base, UNSATISFIED)
    } else {
        base.to_owned()
    };
    let activity = if retrying && frontier_terminal {
        "Frontier agent is correcting the terminal acceptance proposal"
    } else if retrying {
        "Worker agent is correcting the incomplete proposal"
    } else if frontier_terminal {
        "Frontier agent is defining final project acceptance"
    } else {
        "Worker agent is creating OpenSpec artifacts"
    };
    Turn {
        session,
        prompt: stage_prompt(command, subject.as_str(), StageProtocol::Propose),
        activity: activity.to_owned(),
        protocol: StageProtocol::Propose,
    }
}

/// What an answer of the proposal stage leads to.
pub enum ProposeAnswer {
    /// The stage is over.
    Over(Step),
    /// The active changes have to be looked at. The planning conversation goes on
    /// under this name.
    Inspect { effects: Vec<Effect>, session: SessionId, result: StageResult },
}

pub fn propose_answered(
    state: &mut RunState,
    session: &SessionId,
    outcome: Result<StageResult, AgentError>,
) -> (r: ProposeAnswer)
    ensures
        r is Inspect <==> answer(outcome) is Ok,
        final(state)@.stage == old(state)@.stage,
        answer(outcome) matches Err(ErrorView::Escalation(reason)) ==> (
        final(state)@.too_large matches Some(t) && t.stage == old(state)@.stage && t.summary
            == reason),
        !(answer(outcome) matches Err(ErrorView::Escalation(_))) ==> final(state)@.too_large == old(
            state
        )@.too_large,
        r matches ProposeAnswer::Over(step) && step.result is Ok ==> (
        answer(outcome) matches Err(ErrorView::Escalation(_))),
        match answer(outcome) {
            Ok(result) => r matches ProposeAnswer::Inspect { effects, session: id, result: same }
                && same@ == result && id@ == session_after(session@, result) && seen_all(effects@)
                == seq![EffectView::Persist] && final(state)@ == (RunStateView {
                planning_session: Some(id@),
                ..old(state)@
            }),
            Err(ErrorView::Escalation(reason)) => r matches ProposeAnswer::Over(step) && step.with(
                final(state)@,
            ) == done(escalated(old(state)@, reason), seq![EffectView::Persist]),
            Err(e) => r matches ProposeAnswer::Over(step) && step.with(final(state)@) == passed_on(
                old(state)@,
                e,
            ),
        },
{
    match outcome {
        Ok(result) => {
            let id = next_session(session, &result);
            state.planning_session = Some(id.copy());
            ProposeAnswer::Inspect { effects: effects1(Effect::Persist), session: id, result }
        },
        Err(AgentError::Escalation { reason }) => {
            record_too_large(state, reason);
            ProposeAnswer::Over(Step { effects: effects1(Effect::Persist), result: Ok(()) })
        },
        Err(e) => ProposeAnswer::Over(Step { effects: effects0(), result: Err(e) }),
    }
}

/// What a result other than ready leads to, given the active changes after it.
pub open spec fn proposal_signal(
    s: RunStateView,
    result: ResultView,
    after: Seq<(Seq<char>, Seq<char>)>,
) -> Option<StepView> {
    match result.signal {
        StageSignal::Ready => None,
        StageSignal::Done => Some(
            match s.agenda {
                Some(a) => refused(
                    s,
                    Seq::empty(),
                    "Propose returned DONE despite assigned agenda slice `"@ + a.path
                        + "`; the assignment remains preserved in the checkpoint"@,
                ),
                None => if after != s.before_changes {
                    refused(
                        s,
                        Seq::empty(),
                        "Propose returned DONE after changing OpenSpec state; preserving the repository for inspection"@,
                    )
                } else {
                    done(
                        RunStateView {
                            terminal_summary: Some(result.text),
                            stage: Stage::Done,
                            ..s
                        },
                        seq![EffectView::Persist],
                    )
                },
            },
        ),
        StageSignal::TooLarge => Some(done(escalated(s, result.text), seq![EffectView::Persist])),
        StageSignal::Blocked => Some(
            refused(s, Seq::empty(), blocked_message("propose"@, result.text)),
        ),
        other => Some(refused(s, Seq::empty(), unexpected_message("propose"@, other))),
    }
}

pub fn propose_signal(state: &mut RunState, result: &StageResult, after: &ChangeSnapshot) -> (r: Option<
    Step,
>)
    ensures
        match proposal_signal(old(state)@, result@, after@) {
            Some(view) => r matches Some(step) && step.with(final(state)@) == view,
            None => r is None && final(state)@ == old(state)@,
        },
{
    match result.signal {
        StageSignal::Ready => None,
        StageSignal::Done => {
            if let Some(a) = &state.agenda {
                return Some(
                    Step {
                        effects: effects0(),
                        result: refuse(
                            cat3(
                                "Propose returned DONE despite assigned agenda slice `",
                                a.path.as_str(),
                                "`; the assignment remains preserved in the checkpoint",
                            ),
                        ),
                    },
                );
            }
            if !after.same(&state.before_changes) {
                return Some(
                    Step {
                        effects: effects0(),
                        result: refuse(
                            "Propose returned DONE after changing OpenSpec state; preserving the repository for inspection".to_owned(),
                        ),
                    },
                );
            }
            state.terminal_summary = Some(result.text.clone());
            state.stage = Stage::Done;
            Some(Step { effects: effects1(Effect::Persist), result: Ok(()) })
        },
        StageSignal::TooLarge => {
            record_too_large(state, result.text.clone());
            Some(Step { effects: effects1(Effect::Persist), result: Ok(()) })
        },
        StageSignal::Blocked => Some(
            Step {
                effects: effects0(),
                result: refuse(blocked("propose", result.text.as_str())),
            },
        ),
        other => Some(Step { effects: effects0(), result: refuse(unexpected("propose", other)) }),
    }
}

/// The change that the proposal has to be: the one of the agenda, or the prescribed one.
pub open spec fn assigned_change(s: RunStateView) -> Option<Seq<char>> {
    match s.agenda {
        Some(a) => Some(a.change),
        None => s.change,
    }
}

pub fn proposed_change(state: &RunState) -> (r: Option<String>)
    ensures
        text_option(r) == assigned_change(state@),
{
    match &state.agenda {
        Some(a) => Some(a.change.clone()),
        None => match &state.change {
            Some(change) => Some(change.clone()),
            None => None,
        },
    }
}

/// The warning where the agent left the number of a slice out of its change's name.
pub fn reconciliation_warning(assigned: &str, created: &str) -> (r: String)
    ensures
        r@ == "Propose dropped the numeric prefix from `"@ + assigned@
            + "`; reconciling unambiguous new change `"@ + created@ + "`"@,
{
    cat5(
        "Propose dropped the numeric prefix from `",
        assigned,
        "`; reconciling unambiguous new change `",
        created,
        "`",
    )
}

pub const NOTHING_PROPOSED: &'static str = "Propose reported READY without creating or modifying an active OpenSpec change; retrying the same planning session once";

pub const STILL_NOTHING: &'static str = "Propose still created or modified no active OpenSpec change after one corrective turn. Last agent summary: ";

/// What is known of a proposal that is said to be ready.
pub enum Assessment {
    /// One more turn, after these messages.
    Retry(Vec<Effect>),
    /// The stage is over.
    Over(Step),
    /// The proposed change is to be identified.
    Identify,
}

/// Whether a proposal that is said to be ready left the active changes as they were,
/// and the assigned change was not complete already.
pub open spec fn nothing_proposed(
    s: RunStateView,
    after: Seq<(Seq<char>, Seq<char>)>,
    assigned_complete: bool,
) -> bool {
    after == s.before_changes && !assigned_complete
}

/// Holds a proposal that is said to be ready against the active changes: something has
/// to have changed, unless the assigned change was complete already.
pub fn propose_assessed(
    state: &RunState,
    summary: &str,
    after: &ChangeSnapshot,
    assigned_complete: bool,
    retrying: bool,
) -> (r: Assessment)
    ensures
        r is Identify <==> after@ != state@.before_changes || assigned_complete,
        r is Retry ==> !retrying,
        r matches Assessment::Over(step) ==> step.result is Err,
        if !nothing_proposed(state@, after@, assigned_complete) {
            r is Identify
        } else if !retrying {
            r matches Assessment::Retry(effects) && seen_all(effects@) == seq![
                EffectView::Warn(NOTHING_PROPOSED@),
            ]
        } else {
            r matches Assessment::Over(step) && step.with(state@) == refused(
                state@,
                Seq::empty(),
                STILL_NOTHING@ + trimmed(summary@),
            )
        },
{
    if !after.same(&state.before_changes) || assigned_complete {
        return Assessment::Identify;
    }
    if !retrying {
        return Assessment::Retry(effects1(Effect::Warn(NOTHING_PROPOSED.to_owned())));
    }
    let bare = trim(summary);
    Assessment::Over(
        Step { effects: effects0(), result: refuse(cat2(STILL_NOTHING, bare.as_str())) },
    )
}

/// What goes before the reason why a proposed change was not identified.
pub open spec fn unidentified(retrying: bool, summary: Seq<char>) -> Seq<char> {
    if retrying {
        "Propose still did not satisfy its READY postcondition after one corrective turn. Last agent summary: "@
            + trimmed(summary)
    } else {
        "Propose reported READY. Last agent summary: "@ + trimmed(summary)
    }
}

/// The proposed change, by name. An assigned change that was complete already is the
/// proposed one; else `identified` is what the active changes say. Its name has to be a
/// valid one.
pub fn propose_identified(
    assigned: Option<String>,
    assigned_complete: bool,
    identified: Result<String, Failure>,
    retrying: bool,
    summary: &str,
) -> (r: Result<String, Failure>)
    ensures
        r matches Ok(name) ==> valid_change_name(name@),
        assigned_complete && (assigned matches Some(a) && valid_change_name(a@)) ==> (
        r matches Ok(name) && name@ == assigned->0@),
        !assigned_complete && identified is Err ==> r is Err,
        !assigned_complete && (identified matches Ok(n) && valid_change_name(n@)) ==> (
        r matches Ok(name) && name@ == identified->Ok_0@),
        ({
            let named: Result<Seq<char>, Seq<char>> = match assigned {
                Some(change) if assigned_complete => Ok(change@),
                _ => match identified {
                    Ok(change) => Ok(change@),
                    Err(e) => Err(unidentified(retrying, summary@) + ": "@ + e.message@),
                },
            };
            match named {
                Ok(change) => if valid_change_name(change) {
                    r matches Ok(name) && name@ == change
                } else {
                    failed(
                        r,
                        "OpenSpec returned unsafe change name `"@ + change
                            + "`; expected lowercase kebab-case"@,
                    )
                },
                Err(message) => failed(r, message),
            }
        }),
{
    let mut found: Option<String> = None;
    if assigned_complete {
        found = assigned;
    }
    let change = match found {
        Some(change) => change,
        None => match identified {
            Ok(change) => change,
            Err(e) => {
                let bare = trim(summary);
                let head = if retrying {
                    cat2(
                        "Propose still did not satisfy its READY postcondition after one corrective turn. Last agent summary: ",
                        bare.as_str(),
                    )
                } else {
                    cat2("Propose reported READY. Last agent summary: ", bare.as_str())
                };
                return fail(cat3(head.as_str(), ": ", e.message.as_str()));
            },
        },
    };
    match validate_change_name(change.as_str()) {
        Ok(()) => Ok(change),
        Err(e) => Err(e),
    }
}

/// What is left to plan.
pub open spec fn remaining(steps: Seq<Seq<char>>) -> Seq<char> {
    if steps.len() == 0 {
        "OpenSpec reported no next-step detail"@
    } else {
        joined(steps, "; "@)
    }
}

/// The state once a proposal is accepted.
pub open spec fn proposed(s: RunStateView, change: Seq<char>, yolo: bool) -> RunStateView {
    RunStateView {
        change: Some(change),
        planning_session: None,
        planning_backend: None,
        stage: follows_propose(yolo),
        ..s
    }
}

/// Accepts a proposal whose planning is complete. An incomplete one gets one more turn.
pub fn propose_planned(
    state: &mut RunState,
    change: &str,
    status: &PlanningStatus,
    session: &SessionId,
    retrying: bool,
    summary: &str,
    yolo: bool,
) -> (r: Assessment)
    ensures
        final(state)@ != old(state)@ ==> status.is_complete,
        r matches Assessment::Over(step) && step.result is Ok ==> status.is_complete,
        status.is_complete ==> final(state)@.change == Some(change@) && final(state)@.stage == (
        if yolo {
            Stage::Apply
        } else {
            Stage::ProposalCommit
        }),
        r is Retry <==> !status.is_complete && !retrying,
        !(r is Identify),
        ({
            let steps = remaining(texts(status.next_steps@));
            if status.is_complete {
                r matches Assessment::Over(step) && step.with(final(state)@) == done(
                    proposed(old(state)@, change@, yolo),
                    seq![
                        EffectView::ChangeName(Some(change@)),
                        EffectView::Info("Selected OpenSpec change `"@ + change@ + "`"@),
                        EffectView::Rename(session@, change@),
                        EffectView::Persist,
                    ],
                )
            } else if !retrying {
                r matches Assessment::Retry(effects) && final(state)@ == old(state)@ && seen_all(
                    effects@,
                ) == seq![
                    EffectView::Warn(
                        "Propose reported READY for `"@ + change@
                            + "`, but OpenSpec planning is incomplete ("@ + steps
                            + "); retrying the same planning session once"@,
                    ),
                ]
            } else {
                r matches Assessment::Over(step) && step.with(final(state)@) == refused(
                    old(state)@,
                    Seq::empty(),
                    "Propose still left OpenSpec change `"@ + change@
                        + "` planning-incomplete after one corrective turn. Remaining work: "@
                        + steps + ". Last agent summary: "@ + trimmed(summary@),
                )
            }
        }),
{
    if !status.is_complete {
        let steps = if status.next_steps.len() == 0 {
            "OpenSpec reported no next-step detail".to_owned()
        } else {
            join(&status.next_steps, "; ")
        };
        assert(texts(status.next_steps@).len() == status.next_steps@.len());
        if !retrying {
            let warning = cat5(
                "Propose reported READY for `",
                change,
                "`, but OpenSpec planning is incomplete (",
                steps.as_str(),
                "); retrying the same planning session once",
            );
            return Assessment::Retry(effects1(Effect::Warn(warning)));
        }
        let bare = trim(summary);
        let message = cat5(
            "Propose still left OpenSpec change `",
            change,
            "` planning-incomplete after one corrective turn. Remaining work: ",
            steps.as_str(),
            ". Last agent summary: ",
        ).concat(bare.as_str());
        return Assessment::Over(Step { effects: effects0(), result: refuse(message) });
    }
    state.change = Some(change.to_owned());
    state.planning_session = None;
    state.planning_backend = None;
    state.stage = stage_after_propose(yolo);
    let note = cat3("Selected OpenSpec change `", change, "`");
    Assessment::Over(
        Step {
            effects: effects4(
                Effect::ChangeName(Some(change.to_owned())),
                Effect::Info(note),
                Effect::Rename(session.copy(), change.to_owned()),
                Effect::Persist,
            ),
            result: Ok(()),
        },
    )
}

/// An accepted proposal goes to the commit of the proposal, and past it only without
/// milestone commits; its planning conversation is over.
pub proof fn law_yolo_skips_exactly_the_proposal_commit(s: RunStateView, change: Seq<char>)
    ensures
        proposed(s, change, false).stage == Stage::ProposalCommit,
        proposed(s, change, true).stage == Stage::Apply,
        Stage::ProposalCommit.successor() == Some(proposed(s, change, true).stage),
        proposed(s, change, true).planning_session is None,
        proposed(s, change, false).planning_session is None,
{
}

/// What one turn of the proposal stage is found to have done: the answer, the state and
/// the active changes after it, whether the assigned change was complete already, and,
/// where a proposed change was identified, whether its planning is complete.
pub struct ProposalTurn {
    pub answer: Result<ResultView, ErrorView>,
    pub state: RunStateView,
    pub after: Seq<(Seq<char>, Seq<char>)>,
    pub assigned_complete: bool,
    pub planned: Option<bool>,
}

/// Whether a turn of the proposal stage is followed by another. `retrying` says that it
/// followed one itself.
pub open spec fn proposal_retried(t: ProposalTurn, retrying: bool) -> bool {
    t.answer matches Ok(result) && proposal_signal(t.state, result, t.after) is None && (
    nothing_proposed(t.state, t.after, t.assigned_complete) || t.planned == Some(false))
        && !retrying
}

/// How many turns a proposal takes, where its turns are found to be these.
pub open spec fn proposal_turns(turns: Seq<ProposalTurn>, retrying: bool) -> nat
    decreases turns.len(),
{
    if turns.len() == 0 {
        0
    } else if proposal_retried(turns[0], retrying) {
        1 + proposal_turns(turns.skip(1), true)
    } else {
        1
    }
}

/// A proposal has at most two turns, whatever they are found to have done: a turn that
/// is tried again is followed by a corrective one, and a corrective one by none.
pub proof fn law_a_proposal_has_at_most_two_turns(turns: Seq<ProposalTurn>)
    ensures
        proposal_turns(turns, false) <= 2,
        proposal_turns(turns, true) <= 1,
        forall|t: ProposalTurn| !#[trigger] proposal_retried(t, true),
{
    reveal_with_fuel(proposal_turns, 3);
}

// What a proposal keeps

/// A change may be named by small letters, digits and hyphens that do not stand at an end,
/// and in no other way.
pub proof fn law_what_a_change_may_be_called(name: Seq<char>)
    ensures
        valid_change_name(name) <==> name.len() > 0 && name[0] != '-' && name.last() != '-' && (
        forall|i: int|
            0 <= i < name.len() ==> ('a' <= #[trigger] name[i] && name[i] <= 'z') || ('0' <= name[i]
                && name[i] <= '9') || name[i] == '-'),
{
    if valid_change_name(name) {
        assert forall|i: int| 0 <= i < name.len() implies ('a' <= #[trigger] name[i] && name[i]
            <= 'z') || ('0' <= name[i] && name[i] <= '9') || name[i] == '-' by {
            assert(crate::agenda::kebab_char(name[i]));
        }
    }
}

/// A proposal that says READY is looked into. One that says the work is too large is
/// recorded with the stage and what was said. One that says DONE ends the run only where no
/// slice is assigned and nothing was changed. Everything else leaves the state as it was.
pub proof fn law_only_untouched_work_is_done(
    s: RunStateView,
    result: ResultView,
    after: Seq<(Seq<char>, Seq<char>)>,
)
    ensures
        ({
            let r = proposal_signal(s, result, after);
            &&& r is None <==> result.signal == StageSignal::Ready
            &&& r matches Some(step) ==> {
                &&& step.state.stage == Stage::Done && s.stage != Stage::Done ==> result.signal
                    == StageSignal::Done && s.agenda is None && after == s.before_changes
                &&& result.signal == StageSignal::Done && s.agenda is None && after
                    == s.before_changes ==> step.result is Ok && step.state == (RunStateView {
                    stage: Stage::Done,
                    terminal_summary: Some(result.text),
                    ..s
                }) && step.effects == seq![EffectView::Persist]
                &&& result.signal == StageSignal::TooLarge ==> crate::stages::reported(
                    step,
                    s,
                    result.text,
                )
                &&& result.signal != StageSignal::TooLarge && step.state.stage != Stage::Done
                    ==> crate::stages::fails_untouched(step, s)
                &&& step.result is Err ==> crate::stages::fails_untouched(step, s)
                &&& result.signal == StageSignal::Blocked ==> (
                step.result matches Err(ErrorView::Other(m)) && trimmed(result.text).is_suffix_of(
                    m,
                ))
            }
        }),
{
    if result.signal == StageSignal::Blocked {
        let text = trimmed(result.text);
        let m = blocked_message("propose"@, result.text);
        assert(m.subrange(m.len() - text.len(), m.len() as int) =~= text);
    }
}

/// The slice of the agenda names the change that has to be proposed, whatever else is
/// prescribed.
pub proof fn law_the_slice_names_the_change(s: RunStateView)
    ensures
        s.agenda matches Some(a) ==> assigned_change(s) == Some(a.change),
        s.agenda is None ==> assigned_change(s) == s.change,
{
}

/// An accepted proposal names its change and ends its planning conversation; nothing else
/// but the stage is touched.
pub proof fn law_accepted_proposals_name_their_change(s: RunStateView, change: Seq<char>, yolo: bool)
    ensures
        ({
            let t = proposed(s, change, yolo);
            &&& t.change == Some(change)
            &&& t.planning_session is None && t.planning_backend is None
            &&& (RunStateView {
                change: s.change,
                planning_session: s.planning_session,
                planning_backend: s.planning_backend,
                stage: s.stage,
                ..t
            }) == s
        }),
{
}

/// A corrective turn is told everything that the first was told, and more.
pub proof fn law_corrections_repeat_the_task(base: Seq<char>)
    ensures
        propose_prompt(base, false) == base,
        base.is_prefix_of(propose_prompt(base, true)),
        propose_prompt(base, true).len() > base.len(),
{
    reveal_strlit(
        "The preceding READY result did not satisfy the deterministic OpenSpec postcondition.",
    );
    let p = propose_prompt(base, true);
    assert(p.subrange(0, base.len() as int) =~= base);
}

/// A proposal that is said to be ready has to have changed the active changes, unless the
/// assigned change was complete already.
pub proof fn law_ready_proposals_changed_something(
    s: RunStateView,
    after: Seq<(Seq<char>, Seq<char>)>,
)
    ensures
        !nothing_proposed(s, after, true),
        nothing_proposed(s, s.before_changes, false),
        after != s.before_changes ==> !nothing_proposed(s, after, false),
{
}

} // verus!
