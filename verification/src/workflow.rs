//! The course of a run: which stage comes next, what an escalation or a completion
//! leads to, and how a campaign goes on.
use crate::agenda::AgendaSelection;
use crate::assignment::release_state_baseline;
use crate::backend::AgentError;
use crate::effect::{
    done, effects0, effects1, effects2, effects4, ended, refuse, refused, Effect, EffectView, Step,
    Superseding,
};
use crate::failure::{fail, fail_with, failed, Failure};
use crate::git::BaselineView;
use crate::numeral::{decimal, decimal_text};
use crate::openspec::ChangeSnapshot;
use crate::process::{shell_quote, shell_quoted};
use crate::stage::{
    displayed_stage_position, on_frontier, shown_position, stage_uses_frontier_model, Stage,
};
use crate::state::{
    at_terminal_gate, frontier_carries, is_terminal_gate, needs_terminal_review, new_state,
    review_needed, uses_terminal_frontier, CampaignView, CompletedIteration, CompletedView,
    RunState, RunStateView, TooLargeOutcome,
};
use crate::text::{
    cat2, cat3, cat4, cat5, chars_of, copy_option, equal, lemma_seen_all_push, seen_all, string_of,
    text_option, trim, trimmed,
};
use vstd::prelude::*;
use vstd::string::*;

verus! {

/// How many bytes a character takes.
pub open spec fn width(c: char) -> int {
    let n = c as u32;
    if n < 0x80 {
        1
    } else if n < 0x800 {
        2
    } else if n < 0x10000 {
        3
    } else {
        4
    }
}

/// The prefix of `s` whose encoding takes `left` bytes more than its first `k`
/// characters, or all of `s` where no prefix does.
pub open spec fn byte_prefix(s: Seq<char>, k: int, left: int) -> Seq<char>
    decreases s.len() - k,
{
    if left == 0 {
        s.take(k)
    } else if k < 0 || k >= s.len() || width(s[k]) > left {
        s
    } else {
        byte_prefix(s, k + 1, left - width(s[k]))
    }
}

/// A commit as it is shown: its first twelve digits.
pub open spec fn short(hash: Seq<char>) -> Seq<char> {
    byte_prefix(hash, 0, 12)
}

pub fn short_hash(hash: &str) -> (r: String)
    ensures
        r@ == short(hash@),
{
    let v = chars_of(hash);
    let mut k: usize = 0;
    let mut left: u32 = 12;
    while left > 0
        invariant
            v@ == hash@,
            k <= v@.len(),
            left <= 12,
            short(hash@) == byte_prefix(hash@, k as int, left as int),
        decreases left,
    {
        if k == v.len() {
            return hash.to_owned();
        }
        let n: u32 = v[k] as u32;
        let w: u32 = if n < 0x80 {
            1
        } else if n < 0x800 {
            2
        } else if n < 0x10000 {
            3
        } else {
            4
        };
        if w > left {
            return hash.to_owned();
        }
        left = left - w;
        k += 1;
    }
    string_of(&v, 0, k)
}

/// What a stage is begun with.
pub struct StageRun {
    pub number: usize,
    pub total: usize,
    /// The frontier model carries the work at the terminal slice that ends the agenda.
    pub frontier_terminal: bool,
    /// The frontier model carries this stage.
    pub frontier: bool,
}

/// Where a workflow stands before its next stage.
pub enum StageEntry {
    /// The work does not fit one change.
    Escalated,
    Complete,
    Done,
    /// The stage has to be run.
    Run(StageRun),
    /// The stage cannot be run.
    Refused(Failure),
}

/// The state without the proposal commit, where milestone commits are off.
pub open spec fn skipped(s: RunStateView, yolo: bool) -> RunStateView {
    if yolo && s.stage == Stage::ProposalCommit {
        RunStateView { stage: Stage::Apply, ..s }
    } else {
        s
    }
}

pub open spec fn skip_effects(s: RunStateView, yolo: bool) -> Seq<EffectView> {
    if yolo && s.stage == Stage::ProposalCommit {
        seq![
            EffectView::Warn("YOLO mode: skipping the proposal milestone commit"@),
            EffectView::Persist,
        ]
    } else {
        Seq::empty()
    }
}

/// What an ended workflow still asks for: its recorded state let go, the end written.
pub open spec fn end_effects(s: RunStateView) -> Seq<EffectView> {
    match s.slice_baseline {
        Some(b) => seq![EffectView::ReleaseBaseline(b, Superseding::End), EffectView::Persist],
        None => seq![EffectView::Persist],
    }
}

/// Begins the next stage of a workflow. A report that the work is too large comes
/// before everything; then the two ends; then the stage, on the worker or, at the terminal slice
/// and in a bootstrap run, on the frontier model.
pub fn enter_stage(state: &mut RunState, yolo: bool, frontier_available: bool) -> (r: (
    Vec<Effect>,
    StageEntry,
))
    ensures
        r.1 is Escalated <==> old(state)@.too_large is Some,
        r.1 is Complete <==> old(state)@.too_large is None && old(state)@.stage == Stage::Complete,
        r.1 is Done <==> old(state)@.too_large is None && old(state)@.stage == Stage::Done,
        final(state)@.stage == (if yolo && old(state)@.stage == Stage::ProposalCommit {
            Stage::Apply
        } else {
            old(state)@.stage
        }),
        !(r.1 is Complete) && !(r.1 is Done) ==> final(state)@.slice_baseline == old(
            state
        )@.slice_baseline,
        r.1 matches StageEntry::Run(run) ==> (run.frontier ==> frontier_available) && (old(
            state
        )@.bootstrap ==> run.frontier) && (old(state)@.local_only && !old(state)@.bootstrap
            ==> !run.frontier && !run.frontier_terminal) && (run.frontier_terminal ==> (old(
            state
        )@.agenda matches Some(a) && a.path == "automation/slices/9999-project-acceptance.md"@)),
        r.1 is Refused ==> !frontier_available && old(state)@.bootstrap,
        ({
            let s = skipped(old(state)@, yolo);
            let skip = skip_effects(old(state)@, yolo);
            let effects = seen_all(r.0@);
            let carried = frontier_carries(s, frontier_available);
            if s.too_large is Some {
                r.1 is Escalated && final(state)@ == s && effects == skip
            } else if s.stage == Stage::Complete || s.stage == Stage::Done {
                &&& if s.stage == Stage::Complete {
                    r.1 is Complete
                } else {
                    r.1 is Done
                }
                &&& final(state)@ == (RunStateView { slice_baseline: None, ..s })
                &&& effects == end_effects(s)
            } else if on_frontier(s.stage, s.bootstrap, carried) && !frontier_available {
                r.1 matches StageEntry::Refused(e) && e.message@
                    == "frontier stage requires a frontier connection"@ && final(state)@ == s
                    && effects == skip
            } else {
                r.1 matches StageEntry::Run(run) && final(state)@ == s && effects == skip
                    && run.frontier_terminal == carried && run.frontier == on_frontier(
                    s.stage,
                    s.bootstrap,
                    carried,
                ) && (run.number as int, run.total as int) == shown_position(
                    s.stage,
                    s.agenda is Some,
                    carried,
                    yolo,
                )
            }
        }),
{
    let mut effects = effects0();
    if yolo && state.stage == Stage::ProposalCommit {
        state.stage = Stage::Apply;
        effects = effects2(
            Effect::Warn("YOLO mode: skipping the proposal milestone commit".to_owned()),
            Effect::Persist,
        );
    }
    if state.too_large.is_some() {
        return (effects, StageEntry::Escalated);
    }
    if state.stage == Stage::Complete || state.stage == Stage::Done {
        let ended = match release_state_baseline(state) {
            Some(baseline) => effects2(
                Effect::ReleaseBaseline(baseline, Superseding::End),
                Effect::Persist,
            ),
            None => effects1(Effect::Persist),
        };
        if state.stage == Stage::Complete {
            return (ended, StageEntry::Complete);
        }
        return (ended, StageEntry::Done);
    }
    let carried = uses_terminal_frontier(state, frontier_available);
    let frontier = stage_uses_frontier_model(state.stage, state.bootstrap, carried);
    if frontier && !frontier_available {
        return (
            effects,
            StageEntry::Refused(
                Failure::new("frontier stage requires a frontier connection".to_owned()),
            ),
        );
    }
    let (number, total) = displayed_stage_position(
        state.stage,
        state.agenda.is_some(),
        carried,
        yolo,
    );
    (effects, StageEntry::Run(StageRun { number, total, frontier_terminal: carried, frontier }))
}

/// A workflow that ends with a recorded state lets exactly that state go, before the end
/// is written; one without writes the end alone.
pub proof fn law_an_end_lets_the_recorded_state_go(s: RunStateView)
    ensures
        forall|b: BaselineView, by: Superseding|
            #[trigger] end_effects(s).contains(EffectView::ReleaseBaseline(b, by)) <==> (
            s.slice_baseline == Some(b) && by == Superseding::End),
        end_effects(s).last() == EffectView::Persist,
        end_effects(s).len() <= 2,
{
    assert forall|b: BaselineView, by: Superseding|
        s.slice_baseline == Some(b) && by == Superseding::End implies #[trigger] end_effects(
        s,
    ).contains(EffectView::ReleaseBaseline(b, by)) by {
        assert(end_effects(s)[0] == EffectView::ReleaseBaseline(b, by));
    }
}

/// What an iteration is begun with.
pub enum IterationStart {
    /// The frontier model has to review the project first.
    Review,
    /// The workflow may run. Its time is counted where it starts from nothing.
    Run { timed: bool },
    Refused(Failure),
}

pub const REVIEW_SKIPPED: &'static str = "LOCAL-ONLY: skipping frontier review of the terminal acceptance gate";

/// The state past a review that a local run leaves out.
pub open spec fn unreviewed(s: RunStateView) -> RunStateView {
    if review_needed(s) && s.local_only {
        RunStateView { terminal_review_complete: true, ..s }
    } else {
        s
    }
}

/// Begins an iteration. The terminal slice that ends the agenda is reviewed by the frontier model
/// before it is proposed, unless the run is confined to the local model.
pub fn begin_iteration(state: &mut RunState, frontier_available: bool) -> (r: (
    Vec<Effect>,
    IterationStart,
))
    ensures
        r.1 is Review ==> frontier_available && !old(state)@.local_only && (old(
            state
        )@.agenda matches Some(a) && a.path == "automation/slices/9999-project-acceptance.md"@)
            && old(state)@.stage == Stage::Propose && !old(state)@.terminal_review_complete,
        (old(state)@.agenda matches Some(a) && a.path
            == "automation/slices/9999-project-acceptance.md"@) && old(state)@.stage
            == Stage::Propose && !old(state)@.terminal_review_complete && old(state)@.too_large is None
            && !old(state)@.local_only ==> !(r.1 is Run),
        (RunStateView {
            terminal_review_complete: old(state)@.terminal_review_complete,
            ..final(state)@
        }) == old(state)@,
        final(state)@ != old(state)@ ==> old(state)@.local_only && seen_all(r.0@).len() > 0
            && seen_all(r.0@)[0] == EffectView::Persist,
        ({
            let s = unreviewed(old(state)@);
            let effects = seen_all(r.0@);
            &&& final(state)@ == s
            &&& effects == (if review_needed(old(state)@) && old(state)@.local_only {
                seq![EffectView::Persist, EffectView::Warn(REVIEW_SKIPPED@)]
            } else {
                Seq::empty()
            })
            &&& if review_needed(s) {
                if frontier_available {
                    r.1 is Review
                } else {
                    r.1 matches IterationStart::Refused(e) && e.message@
                        == "terminal project acceptance requires a frontier connection"@
                }
            } else if s.bootstrap && !frontier_available {
                r.1 matches IterationStart::Refused(e) && e.message@
                    == "bootstrap requires a frontier connection"@
            } else {
                r.1 matches IterationStart::Run { timed } && timed == ((s.stage == Stage::Explore
                    || s.stage == Stage::Propose) && s.planning_session is None)
            }
        }),
{
    let mut effects = effects0();
    if needs_terminal_review(state) {
        if state.local_only {
            state.terminal_review_complete = true;
            effects = effects2(Effect::Persist, Effect::Warn(REVIEW_SKIPPED.to_owned()));
        } else if frontier_available {
            return (effects, IterationStart::Review);
        } else {
            return (
                effects,
                IterationStart::Refused(
                    Failure::new(
                        "terminal project acceptance requires a frontier connection".to_owned(),
                    ),
                ),
            );
        }
    }
    if state.bootstrap && !frontier_available {
        return (
            effects,
            IterationStart::Refused(
                Failure::new("bootstrap requires a frontier connection".to_owned()),
            ),
        );
    }
    let timed = matches!(state.stage, Stage::Explore | Stage::Propose)
        && state.planning_session.is_none();
    (effects, IterationStart::Run { timed })
}

/// Where an escalation goes.
pub enum EscalationRoute {
    /// The frontier model reviews the project, given the failed attempt.
    Review(TooLargeOutcome),
    /// The frontier model divides the slice.
    Replan,
}

/// What a worker reported, or `otherwise` where it reported nothing.
pub open spec fn report(s: RunStateView, otherwise: Seq<char>) -> Seq<char> {
    match s.too_large {
        Some(outcome) => trimmed(outcome.summary),
        None => otherwise,
    }
}

fn report_text(state: &RunState, otherwise: &str) -> (r: String)
    ensures
        r@ == report(state@, otherwise@),
{
    match &state.too_large {
        Some(outcome) => trim(outcome.summary.as_str()),
        None => otherwise.to_owned(),
    }
}

pub open spec fn bootstrap_did_not_fit(s: RunStateView) -> Seq<char> {
    "bootstrap planning did not fit the configured frontier model: "@ + report(
        s,
        "the frontier planner could not complete bootstrap planning"@,
    )
        + ". The checkpoint and repository work were preserved; resume with a more capable frontier connection or refine the project context"@
}

pub open spec fn stayed_local(s: RunStateView) -> Seq<char> {
    "LOCAL-ONLY: no frontier model was invoked after the local worker reported TOO_LARGE: "@
        + report(s, "the local model could not complete the bounded change"@)
}

/// Routes an escalation. A bootstrap run and a run confined to the local model end with
/// it; at the terminal slice the project is reviewed; any other slice is divided.
pub fn after_escalation(state: &RunState, frontier_available: bool) -> (r: Result<
    EscalationRoute,
    Failure,
>)
    ensures
        r is Ok ==> frontier_available && !state@.local_only && !state@.bootstrap,
        ({
            let terminal = state@.agenda matches Some(a) && a.path
                == "automation/slices/9999-project-acceptance.md"@;
            let handed = frontier_available && !state@.local_only && !state@.bootstrap;
            &&& (r matches Ok(EscalationRoute::Replan)) <==> handed && !terminal
            &&& (r matches Ok(EscalationRoute::Review(_))) <==> handed && terminal && state@.too_large
                is Some
        }),
        r matches Ok(EscalationRoute::Review(o)) ==> state@.too_large == Some(o@),
        ({
            let s = state@;
            if s.bootstrap {
                failed(r, bootstrap_did_not_fit(s))
            } else if s.local_only {
                failed(r, stayed_local(s))
            } else if at_terminal_gate(s) {
                if !frontier_available {
                    failed(
                        r,
                        "terminal project acceptance remediation requires a frontier connection"@,
                    )
                } else {
                    match s.too_large {
                        Some(outcome) => r matches Ok(EscalationRoute::Review(o)) && o@ == outcome,
                        None => failed(
                            r,
                            "terminal acceptance escalation omitted its durable outcome"@,
                        ),
                    }
                }
            } else if !frontier_available {
                failed(r, stayed_local(s))
            } else {
                r matches Ok(EscalationRoute::Replan)
            }
        }),
{
    if state.bootstrap {
        let summary = report_text(
            state,
            "the frontier planner could not complete bootstrap planning",
        );
        return fail(
            cat3(
                "bootstrap planning did not fit the configured frontier model: ",
                summary.as_str(),
                ". The checkpoint and repository work were preserved; resume with a more capable frontier connection or refine the project context",
            ),
        );
    }
    if !state.local_only && is_terminal_gate(state) {
        if !frontier_available {
            return fail_with(
                "terminal project acceptance remediation requires a frontier connection",
            );
        }
        return match &state.too_large {
            Some(outcome) => Ok(EscalationRoute::Review(outcome.copy())),
            None => fail_with("terminal acceptance escalation omitted its durable outcome"),
        };
    }
    if state.local_only || !frontier_available {
        let summary = report_text(state, "the local model could not complete the bounded change");
        return fail(
            cat2(
                "LOCAL-ONLY: no frontier model was invoked after the local worker reported TOO_LARGE: ",
                summary.as_str(),
            ),
        );
    }
    Ok(EscalationRoute::Replan)
}

/// A run confined to the local model is never handed to the frontier model, neither at
/// a stage nor by an escalation nor for a review.
pub proof fn law_local_only_stays_local(s: RunStateView, frontier_available: bool)
    requires
        s.local_only,
        !s.bootstrap,
    ensures
        !on_frontier(s.stage, s.bootstrap, frontier_carries(s, frontier_available)),
        !review_needed(unreviewed(s)),
{
}

/// The message of a workflow whose objective is met.
pub fn done_effects(state: &RunState) -> (r: Vec<Effect>)
    ensures
        seen_all(r@) == seq![
            EffectView::FinishDashboard,
            EffectView::Success(
                "DONE — "@ + (match state@.terminal_summary {
                    Some(summary) => summary,
                    None => "the requested objective is already satisfied"@,
                }),
            ),
        ],
{
    let summary = match &state.terminal_summary {
        Some(summary) => summary.as_str(),
        None => "the requested objective is already satisfied",
    };
    effects2(Effect::FinishDashboard, Effect::Success(cat2("DONE — ", summary)))
}

/// What a completed workflow leads to.
#[derive(Debug, Clone, Copy, PartialEq, Eq, Structural)]
pub enum CompletionRoute {
    /// The agenda that a bootstrap run has made is begun.
    BeginAgenda,
    /// The run is over.
    Finish,
    /// The campaign goes on.
    Continue,
}

pub fn completion_route(state: &RunState) -> (r: CompletionRoute)
    ensures
        r == CompletionRoute::Finish <==> state@.campaign is None,
        r == CompletionRoute::Continue ==> !state@.bootstrap,
        r == CompletionRoute::BeginAgenda ==> state@.bootstrap,
        r == (if state@.campaign is None {
            CompletionRoute::Finish
        } else if state@.bootstrap {
            CompletionRoute::BeginAgenda
        } else {
            CompletionRoute::Continue
        }),
{
    if state.campaign.is_none() {
        CompletionRoute::Finish
    } else if state.bootstrap {
        CompletionRoute::BeginAgenda
    } else {
        CompletionRoute::Continue
    }
}

/// The state that begins the agenda of a bootstrap run, under the same campaign.
pub fn agenda_state(completed: RunState, before_changes: ChangeSnapshot) -> (r: RunState)
    ensures
        r@.request == "advance"@ && r@.campaign == completed@.campaign && r@.stage == Stage::Explore,
        !r@.bootstrap && r@.change is None && r@.before_changes == before_changes@,
        r@ == (RunStateView {
            campaign: completed@.campaign,
            ..new_state("advance"@, before_changes@)
        }),
{
    let mut state = RunState::new("advance".to_owned(), before_changes);
    state.campaign = completed.campaign;
    state
}

/// The message of a completed change.
pub open spec fn completion_message(s: RunStateView) -> Seq<char> {
    "COMPLETE `"@ + (match s.change {
        Some(change) => change,
        None => "change"@,
    }) + "` — final "@ + short(
        match s.final_head {
            Some(head) => head,
            None => "unknown HEAD"@,
        },
    )
}

/// The messages of a run that is over. `continuation` is the command that goes on with
/// the agenda, where there is more of it.
pub open spec fn finish_messages(s: RunStateView, continuation: Option<Seq<char>>) -> Seq<EffectView> {
    let head = seq![EffectView::FinishDashboard, EffectView::Success(completion_message(s))];
    let planning = match s.planning_final_head {
        Some(h) => seq![EffectView::Info("Sidecar archive commit: "@ + short(h))],
        None => Seq::empty(),
    };
    let more = match continuation {
        Some(command) => seq![
            EffectView::Info("More ordered agenda slices remain; this was a single iteration."@),
            EffectView::Info("Continue as a campaign: "@ + command),
        ],
        None => Seq::empty(),
    };
    head + planning + more
}

fn push_effect(effects: &mut Vec<Effect>, effect: Effect)
    ensures
        seen_all(final(effects)@) == seen_all(old(effects)@).push(effect@),
{
    proof {
        lemma_seen_all_push(effects@, effect);
    }
    effects.push(effect);
}

pub fn finish_effects(state: &RunState, continuation: Option<String>) -> (r: Vec<Effect>)
    ensures
        seen_all(r@) == finish_messages(state@, text_option(continuation)),
{
    let change = match &state.change {
        Some(change) => change.as_str(),
        None => "change",
    };
    let head = match &state.final_head {
        Some(head) => short_hash(head.as_str()),
        None => short_hash("unknown HEAD"),
    };
    let message = cat4("COMPLETE `", change, "` — final ", head.as_str());
    let mut effects = effects2(Effect::FinishDashboard, Effect::Success(message));
    if let Some(planning) = &state.planning_final_head {
        let shown = short_hash(planning.as_str());
        push_effect(&mut effects, Effect::Info(cat2("Sidecar archive commit: ", shown.as_str())));
    }
    if let Some(command) = &continuation {
        push_effect(
            &mut effects,
            Effect::Info(
                "More ordered agenda slices remain; this was a single iteration.".to_owned(),
            ),
        );
        push_effect(
            &mut effects,
            Effect::Info(cat2("Continue as a campaign: ", command.as_str())),
        );
    }
    assert(seen_all(effects@) =~= finish_messages(state@, text_option(continuation)));
    effects
}

/// Whether an iteration is among those completed.
pub open spec fn recorded(completed: Seq<CompletedView>, iteration: u32) -> bool {
    exists|i: int| 0 <= i < completed.len() && (#[trigger] completed[i]).iteration == iteration
}

fn is_recorded(completed: &Vec<CompletedIteration>, iteration: u32) -> (r: bool)
    ensures
        r == recorded(seen_all(completed@), iteration),
{
    let mut i: usize = 0;
    while i < completed.len()
        invariant
            i <= completed@.len(),
            forall|k: int|
                0 <= k < i ==> (#[trigger] seen_all(completed@)[k]).iteration != iteration,
        decreases completed@.len() - i,
    {
        if completed[i].iteration == iteration {
            assert(seen_all(completed@)[i as int].iteration == iteration);
            return true;
        }
        i += 1;
    }
    false
}

/// The campaign with its current iteration among those completed.
pub open spec fn with_iteration(s: RunStateView, c: CampaignView, change: Seq<char>, elapsed: Option<u64>) -> CampaignView {
    if recorded(c.completed, c.iteration) {
        c
    } else {
        CampaignView {
            completed: c.completed.push(
                CompletedView {
                    iteration: c.iteration,
                    change,
                    proposal_head: s.proposal_head,
                    final_head: s.final_head,
                    elapsed_seconds: elapsed,
                },
            ),
            ..c
        }
    }
}

/// Records the completed iteration of a campaign, once.
pub fn record_iteration(state: &mut RunState, elapsed_seconds: Option<u64>) -> (r: Step)
    requires
        old(state).campaign is Some,
    ensures
        (RunStateView { campaign: old(state)@.campaign, ..final(state)@ }) == old(state)@,
        final(state)@.campaign matches Some(c) && c.iteration == old(state)@.campaign->0.iteration
            && c.max_iterations == old(state)@.campaign->0.max_iterations,
        r.result is Ok <==> old(state)@.change is Some,
        r.result is Ok ==> recorded(
            final(state)@.campaign->0.completed,
            old(state)@.campaign->0.iteration,
        ),
        final(state)@ != old(state)@ ==> seen_all(r.effects@)[0] == EffectView::Persist,
        ({
            let s = old(state)@;
            let c = s.campaign->0;
            match s.change {
                None => r.with(final(state)@) == refused(
                    s,
                    Seq::empty(),
                    "workflow state has no OpenSpec change name"@,
                ),
                Some(change) => r.with(final(state)@) == done(
                    RunStateView {
                        campaign: Some(with_iteration(s, c, change, elapsed_seconds)),
                        ..s
                    },
                    (if recorded(c.completed, c.iteration) {
                        Seq::empty()
                    } else {
                        seq![EffectView::Persist]
                    }) + seq![
                        EffectView::Success(
                            "Campaign iteration "@ + decimal(c.iteration as nat) + " complete: `"@
                                + change + "`"@,
                        ),
                    ],
                ),
            }
        }),
{
    let change = match &state.change {
        None => {
            return Step {
                effects: effects0(),
                result: refuse("workflow state has no OpenSpec change name".to_owned()),
            };
        },
        Some(change) => change.clone(),
    };
    let ghost s = state@;
    let proposal_head = copy_option(&state.proposal_head);
    let final_head = copy_option(&state.final_head);
    let mut campaign = state.campaign.take().unwrap();
    let iteration = campaign.iteration;
    let number = decimal_text(iteration as u64);
    let praise = Effect::Success(
        cat5("Campaign iteration ", number.as_str(), " complete: `", change.as_str(), "`"),
    );
    let mut effects = effects0();
    if !is_recorded(&campaign.completed, iteration) {
        let entry = CompletedIteration {
            iteration,
            change,
            proposal_head,
            final_head,
            elapsed_seconds,
        };
        proof {
            lemma_seen_all_push(campaign.completed@, entry);
        }
        campaign.completed.push(entry);
        push_effect(&mut effects, Effect::Persist);
    }
    push_effect(&mut effects, praise);
    proof {
        let c = s.campaign->0;
        if recorded(c.completed, c.iteration) {
            assert(seen_all(effects@) =~= Seq::<EffectView>::empty() + seq![praise@]);
        } else {
            assert(seen_all(effects@) =~= seq![EffectView::Persist] + seq![praise@]);
        }
        law_iterations_are_recorded_once(s, c, s.change->0, elapsed_seconds, None);
    }
    state.campaign = Some(campaign);
    Step { effects, result: Ok(()) }
}

/// Recording an iteration twice is recording it once.
pub proof fn law_iterations_are_recorded_once(
    s: RunStateView,
    c: CampaignView,
    change: Seq<char>,
    elapsed: Option<u64>,
    again: Option<u64>,
)
    ensures
        recorded(with_iteration(s, c, change, elapsed).completed, c.iteration),
        with_iteration(s, with_iteration(s, c, change, elapsed), change, again) == with_iteration(
            s,
            c,
            change,
            elapsed,
        ),
{
    let once = with_iteration(s, c, change, elapsed);
    if !recorded(c.completed, c.iteration) {
        assert(once.completed[c.completed.len() as int].iteration == c.iteration);
    }
}

/// What a campaign does after an iteration that it has recorded: it stops where looping
/// is off or a stop was asked for, and otherwise goes on.
pub fn pause_effects(no_loop: bool, stop_requested: bool, iteration: u32, change: &str) -> (r: Option<
    Vec<Effect>,
>)
    ensures
        match r {
            None => !no_loop && !stop_requested,
            Some(effects) => (no_loop || stop_requested) && seen_all(effects@) == seq![
                EffectView::FinishDashboard,
                EffectView::Success(
                    "PAUSED after campaign iteration "@ + decimal(iteration as nat) + ": `"@
                        + change@ + "` is complete"@,
                ),
            ],
        },
{
    if !no_loop && !stop_requested {
        return None;
    }
    let number = decimal_text(iteration as u64);
    Some(
        effects2(
            Effect::FinishDashboard,
            Effect::Success(
                cat5(
                    "PAUSED after campaign iteration ",
                    number.as_str(),
                    ": `",
                    change,
                    "` is complete",
                ),
            ),
        ),
    )
}

/// The state that begins the next iteration: the same request and campaign, a direction
/// that is still pending, and the remediations counted so far.
pub open spec fn next_iteration_state(s: RunStateView, before: Seq<(Seq<char>, Seq<char>)>) -> RunStateView {
    let c = s.campaign->0;
    RunStateView {
        campaign: Some(CampaignView { iteration: (c.iteration + 1) as u32, ..c }),
        pending_direction: s.pending_direction,
        terminal_remediations: s.terminal_remediations,
        ..new_state(s.request, before)
    }
}

pub fn next_iteration(completed: RunState, before_changes: ChangeSnapshot) -> (r: RunState)
    requires
        completed.campaign matches Some(c) && c.iteration < u32::MAX,
    ensures
        r@ == next_iteration_state(completed@, before_changes@),
{
    let RunState { request, campaign, pending_direction, terminal_remediations, .. } = completed;
    let mut campaign = campaign.unwrap();
    campaign.iteration = campaign.iteration + 1;
    let mut state = RunState::new(request, before_changes);
    state.campaign = Some(campaign);
    state.pending_direction = pending_direction;
    state.terminal_remediations = terminal_remediations;
    state
}

/// The history of a campaign is carried into every iteration, and the iterations are
/// numbered one after the other.
pub proof fn law_campaign_history_is_preserved(s: RunStateView, before: Seq<(Seq<char>, Seq<char>)>)
    requires
        s.campaign matches Some(c) && c.iteration < u32::MAX,
    ensures
        ({
            let t = next_iteration_state(s, before);
            &&& t.request == s.request
            &&& t.campaign->0.completed == s.campaign->0.completed
            &&& t.campaign->0.iteration == s.campaign->0.iteration + 1
            &&& t.campaign->0.max_iterations == s.campaign->0.max_iterations
            &&& t.pending_direction == s.pending_direction
            &&& t.terminal_remediations == s.terminal_remediations
        }),
{
}

/// The limit that is offered once a campaign has reached its own.
pub open spec fn raised_limit(limit: u32) -> int {
    let doubled = if 2 * limit > u32::MAX {
        u32::MAX as int
    } else {
        2 * limit
    };
    let next = if limit + 1 > u32::MAX {
        u32::MAX as int
    } else {
        limit + 1
    };
    if doubled > next {
        doubled
    } else {
        next
    }
}

/// The command that goes on with a campaign under a higher limit.
pub open spec fn resume_command(repo: Seq<char>, limit: u32) -> Seq<char> {
    "opsx-build --repo "@ + shell_quoted(repo) + " --resume --loop --max-iterations "@ + decimal(
        raised_limit(limit) as nat,
    )
}

pub fn campaign_limit_resume_command(repo: &str, current_limit: u32) -> (r: String)
    ensures
        r@ == resume_command(repo@, current_limit),
{
    let doubled: u32 = if current_limit > 0x7fff_ffff {
        u32::MAX
    } else {
        current_limit * 2
    };
    let next: u32 = if current_limit == u32::MAX {
        u32::MAX
    } else {
        current_limit + 1
    };
    let limit: u32 = if doubled > next {
        doubled
    } else {
        next
    };
    let quoted = shell_quote(repo);
    let number = decimal_text(limit as u64);
    cat4(
        "opsx-build --repo ",
        quoted.as_str(),
        " --resume --loop --max-iterations ",
        number.as_str(),
    )
}

/// The limit that is offered is higher than the one that was reached, unless that was
/// the highest there is.
pub proof fn law_limit_is_raised(limit: u32)
    ensures
        raised_limit(limit) > limit || limit == u32::MAX,
        raised_limit(limit) <= u32::MAX,
{
}

/// Whether a campaign has reached its limit with work left.
pub open spec fn limit_reached(next: RunStateView, iteration: u32, max_iterations: Option<u32>) -> bool {
    next.stage != Stage::Done && (max_iterations matches Some(maximum) && iteration >= maximum)
}

/// What a campaign that has reached its limit says.
pub open spec fn limit_messages(
    repo: Seq<char>,
    iteration: u32,
    maximum: u32,
    change: Seq<char>,
) -> Seq<EffectView> {
    seq![
        EffectView::FinishDashboard,
        EffectView::Success(
            "PAUSED — cumulative campaign limit reached after "@ + decimal(iteration as nat)
                + " completed iteration(s); `"@ + change + "` is complete"@,
        ),
        EffectView::Info(
            "The campaign checkpoint and all completed iteration history were preserved."@,
        ),
        EffectView::Info(
            "Resume with a higher cumulative limit: "@ + resume_command(repo, maximum),
        ),
    ]
}

/// The error that a campaign stops with at its limit.
pub open spec fn incomplete_campaign(iteration: u32, maximum: u32) -> Seq<char> {
    "the campaign is incomplete: "@ + decimal(iteration as nat)
        + " iteration(s) are complete and its limit is "@ + decimal(maximum as nat)
}

/// Whether a campaign may begin its next iteration: it stops with an error that names it
/// as incomplete where its limit is reached and work is left.
pub fn limit_step(
    next: &RunState,
    repo: &str,
    iteration: u32,
    max_iterations: Option<u32>,
    change: &str,
) -> (r: Step)
    ensures
        r.result is Err <==> next@.stage != Stage::Done && (max_iterations matches Some(maximum)
            && maximum <= iteration),
        max_iterations is None ==> r.result is Ok,
        r.with(next@) == if limit_reached(next@, iteration, max_iterations) {
            refused(
                next@,
                limit_messages(repo@, iteration, max_iterations->0, change@),
                incomplete_campaign(iteration, max_iterations->0),
            )
        } else {
            done(next@, Seq::empty())
        },
{
    match max_iterations {
        Some(maximum) if next.stage != Stage::Done && iteration >= maximum => {
            let number = decimal_text(iteration as u64);
            let limit = decimal_text(maximum as u64);
            let command = campaign_limit_resume_command(repo, maximum);
            let effects = effects4(
                Effect::FinishDashboard,
                Effect::Success(
                    cat5(
                        "PAUSED — cumulative campaign limit reached after ",
                        number.as_str(),
                        " completed iteration(s); `",
                        change,
                        "` is complete",
                    ),
                ),
                Effect::Info(
                    "The campaign checkpoint and all completed iteration history were preserved.".to_owned(),
                ),
                Effect::Info(cat2("Resume with a higher cumulative limit: ", command.as_str())),
            );
            let message = cat4(
                "the campaign is incomplete: ",
                number.as_str(),
                " iteration(s) are complete and its limit is ",
                limit.as_str(),
            );
            Step { effects, result: Err(AgentError::Other { message }) }
        },
        _ => Step { effects: effects0(), result: Ok(()) },
    }
}

/// The command that goes on with the agenda as a campaign, after a single iteration
/// that has left some of it. `selection` is what the agenda offers now.
pub fn single_advance_continuation_command(
    repo: &str,
    state: &RunState,
    selection: &Result<AgendaSelection, Failure>,
) -> (r: Option<String>)
    ensures
        r is Some ==> state@.campaign is None && state@.request == "advance"@ && (
        selection matches Ok(AgendaSelection::Next(_))),
        text_option(r) == (if state@.request == "advance"@ && state@.campaign is None && (
        selection matches Ok(AgendaSelection::Next(_))) {
            Some("opsx-build --repo "@ + shell_quoted(repo@) + " --loop advance"@)
        } else {
            None
        }),
{
    if !equal(state.request.as_str(), "advance") || state.campaign.is_some() {
        return None;
    }
    match selection {
        Ok(AgendaSelection::Next(_)) => {
            let quoted = shell_quote(repo);
            Some(cat3("opsx-build --repo ", quoted.as_str(), " --loop advance"))
        },
        _ => None,
    }
}

// What a campaign keeps

/// A commit is shown by its first twelve digits, and a shorter one whole.
pub proof fn law_commits_are_shown_short(hash: Seq<char>)
    requires
        forall|i: int| 0 <= i < hash.len() ==> (#[trigger] hash[i] as u32) < 0x80,
    ensures
        short(hash) == (if hash.len() <= 12 {
            hash
        } else {
            hash.take(12)
        }),
{
    lemma_short(hash, 0);
    assert(hash.take(hash.len() as int) =~= hash);
}

proof fn lemma_short(hash: Seq<char>, k: int)
    requires
        0 <= k <= 12,
        k <= hash.len(),
        forall|i: int| 0 <= i < hash.len() ==> (#[trigger] hash[i] as u32) < 0x80,
    ensures
        byte_prefix(hash, k, 12 - k) == (if hash.len() < 12 {
            hash
        } else {
            hash.take(12)
        }),
    decreases 12 - k,
{
    if k < 12 && k < hash.len() {
        lemma_short(hash, k + 1);
    }
}

/// Recording a completed iteration adds exactly one entry behind those that are there, for
/// this iteration, its change and its commits; nothing else of the campaign changes.
pub proof fn law_an_iteration_is_added_to_the_history(
    s: RunStateView,
    c: CampaignView,
    change: Seq<char>,
    elapsed: Option<u64>,
)
    ensures
        ({
            let d = with_iteration(s, c, change, elapsed);
            let fresh = forall|i: int|
                0 <= i < c.completed.len() ==> (#[trigger] c.completed[i]).iteration != c.iteration;
            &&& d.iteration == c.iteration && d.max_iterations == c.max_iterations
            &&& c.completed.is_prefix_of(d.completed)
            &&& d.completed.len() == c.completed.len() + (if fresh {
                1int
            } else {
                0int
            })
            &&& fresh ==> d.completed.last().iteration == c.iteration && d.completed.last().change
                == change && d.completed.last().proposal_head == s.proposal_head
                && d.completed.last().final_head == s.final_head
                && d.completed.last().elapsed_seconds == elapsed
        }),
{
    let d = with_iteration(s, c, change, elapsed);
    assert(d.completed.subrange(0, c.completed.len() as int) =~= c.completed);
}

/// The next iteration begins from nothing but what a campaign carries on.
pub proof fn law_iterations_begin_anew(s: RunStateView, before: Seq<(Seq<char>, Seq<char>)>)
    requires
        s.campaign matches Some(c) && c.iteration < u32::MAX,
    ensures
        ({
            let t = next_iteration_state(s, before);
            &&& t.stage == Stage::Explore && t.change is None && t.agenda is None
            &&& t.before_changes == before
            &&& t.verify_retries == 0 && t.frontier_replans == 0 && !t.terminal_review_complete
            &&& t.pending_repair is None && t.too_large is None && t.planning_session is None
            &&& t.proposal_head is None && t.final_head is None && t.slice_baseline is None
            &&& !t.bootstrap
        }),
{
}

/// A campaign stops for its limit exactly where it has one, as many iterations are complete,
/// and there is work left. One whose agenda is done ends as done.
pub proof fn law_limits_stop_campaigns(next: RunStateView, iteration: u32, limit: Option<u32>)
    ensures
        limit is None ==> !limit_reached(next, iteration, limit),
        next.stage == Stage::Done ==> !limit_reached(next, iteration, limit),
        limit matches Some(n) ==> (limit_reached(next, iteration, limit) <==> next.stage
            != Stage::Done && n <= iteration),
{
}

/// The limit that is offered is twice the one that was reached, where that is a limit.
pub proof fn law_limits_are_doubled(limit: u32)
    ensures
        0 < limit && 2 * limit <= u32::MAX ==> raised_limit(limit) == 2 * limit,
        limit == 0 ==> raised_limit(limit) == 1,
        2 * limit > u32::MAX ==> raised_limit(limit) == u32::MAX,
{
}

/// Without milestone commits a workflow passes over its proposal commit, says so and writes
/// it down, and over nothing else.
pub proof fn law_only_the_proposal_commit_is_passed_over(s: RunStateView, yolo: bool)
    ensures
        !yolo ==> skipped(s, yolo) == s && skip_effects(s, yolo).len() == 0,
        s.stage != Stage::ProposalCommit ==> skipped(s, yolo) == s && skip_effects(
            s,
            yolo,
        ).len() == 0,
        yolo && s.stage == Stage::ProposalCommit ==> skipped(s, yolo) == (RunStateView {
            stage: Stage::Apply,
            ..s
        }) && skip_effects(s, yolo).last() == EffectView::Persist,
{
}

/// A review is left out only by a run that is confined to the local model.
pub proof fn law_reviews_are_left_out_locally(s: RunStateView)
    ensures
        !s.local_only ==> unreviewed(s) == s,
        unreviewed(s) != s ==> review_needed(s) && unreviewed(s) == (RunStateView {
            terminal_review_complete: true,
            ..s
        }),
        s.local_only ==> !review_needed(unreviewed(s)),
{
}

/// A run that ends with an escalation says what the worker reported.
pub proof fn law_reports_are_passed_on(s: RunStateView, otherwise: Seq<char>)
    requires
        s.too_large is Some,
    ensures
        report(s, otherwise) == trimmed(s.too_large->0.summary),
        exists|i: int|
            crate::text::occurs_at(
                bootstrap_did_not_fit(s),
                trimmed(s.too_large->0.summary),
                i,
            ),
        trimmed(s.too_large->0.summary).is_suffix_of(stayed_local(s)),
{
    let text = trimmed(s.too_large->0.summary);
    let head = "bootstrap planning did not fit the configured frontier model: "@;
    let m = bootstrap_did_not_fit(s);
    let at = head.len() as int;
    assert(m.subrange(at, at + text.len()) =~= text);
    assert(crate::text::occurs_at(m, text, at));
    let n = stayed_local(s);
    assert(n.subrange(n.len() - text.len(), n.len() as int) =~= text);
}

/// A run that is over says which change is complete, and the way on where there is more.
pub proof fn law_the_end_says_how_to_go_on(s: RunStateView, command: Seq<char>)
    ensures
        finish_messages(s, None).len() + 2 == finish_messages(s, Some(command)).len(),
        finish_messages(s, None).is_prefix_of(finish_messages(s, Some(command))),
        finish_messages(s, Some(command)).last() is Info && command.is_suffix_of(
            finish_messages(s, Some(command)).last()->Info_0,
        ),
        s.change is Some && s.final_head is Some ==> short(s.final_head->0).is_suffix_of(
            completion_message(s),
        ) && exists|i: int| crate::text::occurs_at(completion_message(s), s.change->0, i),
        s.planning_final_head is Some ==> finish_messages(s, None).len() == 3,
        s.planning_final_head is None ==> finish_messages(s, None).len() == 2,
        finish_messages(s, None)[0] == EffectView::FinishDashboard,
{
    let short_list = finish_messages(s, None);
    let long_list = finish_messages(s, Some(command));
    assert(long_list.subrange(0, short_list.len() as int) =~= short_list);
    let last = long_list.last()->Info_0;
    assert(last == "Continue as a campaign: "@ + command);
    assert(last.subrange(last.len() - command.len(), last.len() as int) =~= command);
    if s.change is Some && s.final_head is Some {
        let m = completion_message(s);
        let tail = short(s.final_head->0);
        assert(m.subrange(m.len() - tail.len(), m.len() as int) =~= tail);
        let at = "COMPLETE `"@.len() as int;
        assert(m.subrange(at, at + s.change->0.len()) =~= s.change->0);
        assert(crate::text::occurs_at(m, s.change->0, at));
    }
}

/// A campaign that has reached its limit says how many iterations and which change are
/// complete, and how it is resumed with a higher limit.
pub proof fn law_limits_say_how_to_go_on(
    repo: Seq<char>,
    iteration: u32,
    maximum: u32,
    change: Seq<char>,
)
    ensures
        ({
            let r = limit_messages(repo, iteration, maximum, change);
            &&& r[0] is FinishDashboard
            &&& r[1] == EffectView::Success(
                "PAUSED — cumulative campaign limit reached after "@ + decimal(iteration as nat)
                    + " completed iteration(s); `"@ + change + "` is complete"@,
            )
            &&& r.last() matches EffectView::Info(t) && (" --resume --loop --max-iterations "@
                + decimal(raised_limit(maximum) as nat)).is_suffix_of(t)
        }),
        ("opsx-build --repo "@ + shell_quoted(repo)).is_prefix_of(resume_command(repo, maximum)),
{
    let c = resume_command(repo, maximum);
    let z = " --resume --loop --max-iterations "@ + decimal(raised_limit(maximum) as nat);
    let t = "Resume with a higher cumulative limit: "@ + c;
    assert(t.subrange(t.len() - z.len(), t.len() as int) =~= z);
    let a = "opsx-build --repo "@ + shell_quoted(repo);
    assert(c.subrange(0, a.len() as int) =~= a);
}

} // verus!
