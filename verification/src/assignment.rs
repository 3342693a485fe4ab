//! How a run gets its work: from the agenda, from a prescribed change, or from a
//! checkpoint that is taken up again.
use crate::agenda::{AgendaSelection, SelectionView};
use crate::effect::{
    as_error, done, effects0, effects1, effects2, refuse, refused, Effect, EffectView, Step,
    StepView, Superseding,
};
use crate::failure::{fail, failed, Failure};
use crate::git::SliceBaseline;
use crate::openspec::{change_names, ChangeSnapshot};
use crate::planning::{valid_change_name, validate_change_name};
use crate::stage::{follows_propose, stage_after_propose, Stage};
use crate::state::{
    directed, fresh_campaign, new_state, product_repository, product_root, queue_direction,
    CampaignState, CampaignView, RunState, RunStateView,
};
use crate::text::{cat3, cat4, cat5, equal, seen, seen_all, str_option, text_option, trim, trimmed};
use vstd::prelude::*;
use vstd::string::*;

verus! {

pub const AGENDA_DONE: &'static str = "every ordered agenda slice is archived";

pub const AGENDA_REQUIRED: &'static str = "`advance` requires an ordered agenda under `automation/slices/<number>-slug.md`";

/// The change that an agenda offers, where it is active already. Only then its planning
/// has to be looked at.
pub fn offered_active_change(state: &RunState, selection: &AgendaSelection) -> (r: Option<String>)
    ensures
        text_option(r) == (match selection@ {
            SelectionView::Next(a) if change_names(state@.before_changes).contains(a.change) => Some(
                a.change,
            ),
            _ => None,
        }),
{
    match selection {
        AgendaSelection::Next(a) => {
            if state.before_changes.contains(a.change.as_str()) {
                Some(a.change.clone())
            } else {
                None
            }
        },
        _ => None,
    }
}

/// What an agenda makes of a run that is to advance it. `planned` says whether the
/// planning of an active change is complete.
pub open spec fn agenda_assigned(
    s: RunStateView,
    selection: Result<SelectionView, Seq<char>>,
    planned: bool,
    yolo: bool,
) -> StepView {
    if s.request != "advance"@ {
        done(s, Seq::empty())
    } else {
        match selection {
            Err(message) => refused(s, Seq::empty(), message),
            Ok(SelectionView::Absent) => refused(s, Seq::empty(), AGENDA_REQUIRED@),
            Ok(SelectionView::Complete) => done(
                RunStateView {
                    change: None,
                    agenda: None,
                    stage: Stage::Done,
                    terminal_summary: Some(AGENDA_DONE@),
                    ..s
                },
                seq![EffectView::Info("Ordered agenda is complete"@)],
            ),
            Ok(SelectionView::Next(a)) => {
                let announced = EffectView::Info(
                    "Advancing agenda with `"@ + a.path + "` — "@ + a.title,
                );
                let t = RunStateView { change: Some(a.change), agenda: Some(a), ..s };
                if planned && change_names(s.before_changes).contains(a.change) {
                    done(
                        RunStateView { stage: follows_propose(yolo), ..t },
                        seq![
                            announced,
                            EffectView::Info(
                                "Assigned change `"@ + a.change
                                    + "` already has complete planning; continuing at "@ + (
                                if yolo {
                                    "Apply"@
                                } else {
                                    "proposal commit"@
                                }),
                            ),
                        ],
                    )
                } else {
                    done(RunStateView { stage: Stage::Propose, ..t }, seq![announced])
                }
            },
        }
    }
}

/// Gives a run its slice of the agenda. Only a run that is to advance the agenda gets
/// one.
pub fn assign_agenda(
    state: &mut RunState,
    selection: Result<AgendaSelection, Failure>,
    planned: bool,
    yolo: bool,
) -> (r: Step)
    ensures
        r.with(final(state)@) == agenda_assigned(
            old(state)@,
            crate::agenda::selected(selection),
            planned,
            yolo,
        ),
{
    if !equal(state.request.as_str(), "advance") {
        return Step { effects: effects0(), result: Ok(()) };
    }
    match selection {
        Err(e) => Step { effects: effects0(), result: Err(as_error(e)) },
        Ok(AgendaSelection::Absent) => Step {
            effects: effects0(),
            result: refuse(AGENDA_REQUIRED.to_owned()),
        },
        Ok(AgendaSelection::Complete) => {
            state.change = None;
            state.agenda = None;
            state.stage = Stage::Done;
            state.terminal_summary = Some(AGENDA_DONE.to_owned());
            Step {
                effects: effects1(Effect::Info("Ordered agenda is complete".to_owned())),
                result: Ok(()),
            }
        },
        Ok(AgendaSelection::Next(a)) => {
            let announced = Effect::Info(
                cat4("Advancing agenda with `", a.path.as_str(), "` — ", a.title.as_str()),
            );
            let ready = planned && state.before_changes.contains(a.change.as_str());
            state.change = Some(a.change.clone());
            if ready {
                state.stage = stage_after_propose(yolo);
                let place = if yolo {
                    "Apply"
                } else {
                    "proposal commit"
                };
                let note = cat4(
                    "Assigned change `",
                    a.change.as_str(),
                    "` already has complete planning; continuing at ",
                    place,
                );
                state.agenda = Some(a);
                Step { effects: effects2(announced, Effect::Info(note)), result: Ok(()) }
            } else {
                state.stage = Stage::Propose;
                state.agenda = Some(a);
                Step { effects: effects1(announced), result: Ok(()) }
            }
        },
    }
}

/// What is reported where a prescribed change is active already.
pub open spec fn already_active(change: Seq<char>) -> Seq<char> {
    "OpenSpec change `"@ + change
        + "` is already active; continue it with `--continue-existing --change "@ + change + "`"@
}

/// What a prescribed change makes of a run.
pub open spec fn change_assigned(s: RunStateView, change: Option<Seq<char>>) -> StepView {
    match change {
        None => done(s, Seq::empty()),
        Some(name) => if !valid_change_name(name) {
            refused(
                s,
                Seq::empty(),
                "OpenSpec returned unsafe change name `"@ + name
                    + "`; expected lowercase kebab-case"@,
            )
        } else if change_names(s.before_changes).contains(name) {
            refused(s, Seq::empty(), already_active(name))
        } else {
            done(
                RunStateView { change: Some(name), ..s },
                seq![EffectView::Info("Prescribing OpenSpec change `"@ + name + "`"@)],
            )
        },
    }
}

/// Gives a run the change that is prescribed for it, where one is. It must not be
/// active yet.
pub fn assign_requested_change(state: &mut RunState, change: Option<&str>) -> (r: Step)
    ensures
        r.with(final(state)@) == change_assigned(old(state)@, str_option(change)),
{
    let name = match change {
        None => {
            return Step { effects: effects0(), result: Ok(()) };
        },
        Some(name) => name,
    };
    match validate_change_name(name) {
        Err(e) => {
            return Step { effects: effects0(), result: Err(as_error(e)) };
        },
        Ok(()) => {},
    }
    if state.before_changes.contains(name) {
        return Step {
            effects: effects0(),
            result: refuse(
                cat5(
                    "OpenSpec change `",
                    name,
                    "` is already active; continue it with `--continue-existing --change ",
                    name,
                    "`",
                ),
            ),
        };
    }
    state.change = Some(name.to_owned());
    Step {
        effects: effects1(Effect::Info(cat3("Prescribing OpenSpec change `", name, "`"))),
        result: Ok(()),
    }
}

/// Whether a state to come back to has to be recorded for a run.
pub open spec fn needs_baseline(s: RunStateView) -> bool {
    !s.local_only && s.stage != Stage::Complete && s.stage != Stage::Done
}

/// Sets the state to come back to. A run confined to the local model, and one that is
/// over, have none; `captured` is what was recorded of the repository for the others.
pub fn arm_slice_baseline(state: &mut RunState, captured: Option<SliceBaseline>)
    requires
        needs_baseline(old(state)@) ==> captured is Some,
    ensures
        final(state)@ == (RunStateView {
            slice_baseline: if needs_baseline(old(state)@) {
                seen(captured)
            } else {
                None
            },
            ..old(state)@
        }),
{
    if state.local_only || matches!(state.stage, Stage::Complete | Stage::Done) {
        state.slice_baseline = None;
    } else {
        state.slice_baseline = captured;
    }
}

pub fn baseline_needed(state: &RunState) -> (r: bool)
    ensures
        r == needs_baseline(state@),
{
    !(state.local_only || matches!(state.stage, Stage::Complete | Stage::Done))
}

/// Takes the state to come back to out of a run.
pub fn release_state_baseline(state: &mut RunState) -> (r: Option<SliceBaseline>)
    ensures
        seen(r) == old(state)@.slice_baseline,
        final(state)@ == (RunStateView { slice_baseline: None, ..old(state)@ }),
{
    state.slice_baseline.take()
}

/// The repository that a recorded state belongs to where it is let go. The frontier
/// model divides and reviews in the planning repository.
pub fn release_repository(repo: &str, state: &RunState, by: Superseding) -> (r: String)
    ensures
        r@ == match by {
            Superseding::End => product_root(repo@, state@),
            _ => repo@,
        },
{
    match by {
        Superseding::End => product_repository(repo, state),
        _ => repo.to_owned(),
    }
}

/// What is shown where a recorded state could not be let go.
pub fn release_warning(by: Superseding, error: &str) -> (r: String)
    ensures
        r@ == "Could not release "@ + (match by {
            Superseding::End => "private"@,
            Superseding::Division => "superseded"@,
            Superseding::Remediation => "superseded terminal"@,
        }) + " rollback metadata; workflow state is unaffected: "@ + error@,
{
    let what = match by {
        Superseding::End => "private",
        Superseding::Division => "superseded",
        Superseding::Remediation => "superseded terminal",
    };
    cat4(
        "Could not release ",
        what,
        " rollback metadata; workflow state is unaffected: ",
        error,
    )
}

// Taking up a checkpoint

/// Whether a checkpoint has to be resumed before anything new is begun.
pub open spec fn unfinished(s: RunStateView) -> bool {
    (s.stage != Stage::Complete && s.stage != Stage::Done) || (s.stage == Stage::Complete
        && s.campaign is Some)
}

/// Refuses a new run while another is unfinished.
pub fn check_no_unfinished(existing: &RunState) -> (r: Result<(), Failure>)
    ensures
        if unfinished(existing@) {
            failed(
                r,
                "an unfinished opsx-build run is recorded at "@ + existing@.stage.name()
                    + "; use `--resume` or `--forget`"@,
            )
        } else {
            r is Ok
        },
{
    if !matches!(existing.stage, Stage::Complete | Stage::Done) || (existing.stage
        == Stage::Complete && existing.campaign.is_some()) {
        fail(
            cat3(
                "an unfinished opsx-build run is recorded at ",
                existing.stage.title(),
                "; use `--resume` or `--forget`",
            ),
        )
    } else {
        Ok(())
    }
}

/// Why a checkpoint cannot be taken up under a request, if it cannot.
pub open spec fn resume_refusal(s: RunStateView, request: Seq<char>) -> Option<Seq<char>> {
    if request.len() > 0 && request != s.request {
        Some("the supplied request does not match the saved run request"@)
    } else if s.stage == Stage::Complete && s.campaign is None {
        Some("the saved run is already complete; start a new run or use `--forget`"@)
    } else if s.stage == Stage::Done && s.campaign is None {
        Some("the saved run is already done; start a new run or use `--forget`"@)
    } else {
        None
    }
}

/// The campaign of a checkpoint that is taken up: begun where one is asked for, with
/// its limit changed where a new one is given.
pub open spec fn resumed_campaign(
    campaign: Option<CampaignView>,
    loop_workflow: bool,
    max_iterations: Option<u32>,
) -> Option<CampaignView> {
    match campaign {
        None => if loop_workflow {
            Some(fresh_campaign(max_iterations))
        } else {
            None
        },
        Some(c) => if max_iterations is Some {
            Some(CampaignView { max_iterations, ..c })
        } else {
            Some(c)
        },
    }
}

/// The message on what a checkpoint is taken up after.
pub open spec fn escalation_notice(s: RunStateView) -> Seq<EffectView> {
    match s.too_large {
        Some(outcome) => seq![
            EffectView::Warn(
                "Resuming frontier recovery after "@ + outcome.stage.name() + " escalation: "@
                    + trimmed(outcome.summary),
            ),
        ],
        None => Seq::empty(),
    }
}

/// What a checkpoint is once it is taken up under a request.
pub open spec fn resumed(
    s: RunStateView,
    request: Seq<char>,
    loop_workflow: bool,
    max_iterations: Option<u32>,
) -> StepView {
    match resume_refusal(s, request) {
        Some(message) => refused(s, Seq::empty(), message),
        None => done(
            RunStateView {
                campaign: resumed_campaign(s.campaign, loop_workflow, max_iterations),
                ..s
            },
            escalation_notice(s),
        ),
    }
}

/// Takes a checkpoint up under a request.
pub fn resume(state: &mut RunState, request: &str, loop_workflow: bool, max_iterations: Option<u32>) -> (r:
    Step)
    ensures
        r.with(final(state)@) == resumed(old(state)@, request@, loop_workflow, max_iterations),
        final(state)@.stage == old(state)@.stage,
        final(state)@.too_large == old(state)@.too_large,
{
    if request.unicode_len() > 0 && !equal(request, state.request.as_str()) {
        return Step {
            effects: effects0(),
            result: refuse("the supplied request does not match the saved run request".to_owned()),
        };
    }
    if state.stage == Stage::Complete && state.campaign.is_none() {
        return Step {
            effects: effects0(),
            result: refuse(
                "the saved run is already complete; start a new run or use `--forget`".to_owned(),
            ),
        };
    }
    if state.stage == Stage::Done && state.campaign.is_none() {
        return Step {
            effects: effects0(),
            result: refuse(
                "the saved run is already done; start a new run or use `--forget`".to_owned(),
            ),
        };
    }
    let effects = match &state.too_large {
        Some(outcome) => {
            let bare = trim(outcome.summary.as_str());
            effects1(
                Effect::Warn(
                    cat4(
                        "Resuming frontier recovery after ",
                        outcome.stage.title(),
                        " escalation: ",
                        bare.as_str(),
                    ),
                ),
            )
        },
        None => effects0(),
    };
    match state.campaign.take() {
        None => {
            if loop_workflow {
                state.campaign = Some(CampaignState::fresh(max_iterations));
            }
        },
        Some(campaign) => {
            let mut campaign = campaign;
            if max_iterations.is_some() {
                campaign.max_iterations = max_iterations;
            }
            state.campaign = Some(campaign);
        },
    }
    Step { effects, result: Ok(()) }
}

/// Whether a checkpoint that is taken up still has to get its slice of the agenda.
pub fn resume_needs_agenda(state: &RunState) -> (r: bool)
    ensures
        r == (state@.request == "advance"@ && state@.agenda is None && state@.stage
            == Stage::Explore && state@.planning_session is None),
{
    equal(state.request.as_str(), "advance") && state.agenda.is_none() && state.stage
        == Stage::Explore && state.planning_session.is_none()
}

/// Whether a checkpoint that is taken up still has to get a state to come back to. A dry
/// run changes nothing, so it records none.
pub fn resume_needs_baseline(state: &RunState, dry_run: bool) -> (r: bool)
    ensures
        r == (!dry_run && !state@.bootstrap && state@.slice_baseline is None && (state@.stage
            == Stage::Explore || state@.stage == Stage::Propose)),
{
    !dry_run && !state.bootstrap && state.slice_baseline.is_none() && matches!(
        state.stage,
        Stage::Explore | Stage::Propose
    )
}

/// Queues the direction that a checkpoint is taken up with.
pub fn resume_direction(state: &mut RunState, direction: Option<&str>) -> (r: Vec<Effect>)
    ensures
        match direction {
            Some(d) => final(state)@ == directed(old(state)@, d@) && seen_all(r@) == seq![
                EffectView::Info("Queued one-shot direction for the next code-changing stage"@),
            ],
            None => final(state)@ == old(state)@ && seen_all(r@) == Seq::<EffectView>::empty(),
        },
{
    match direction {
        Some(d) => {
            queue_direction(state, d);
            effects1(
                Effect::Info("Queued one-shot direction for the next code-changing stage".to_owned()),
            )
        },
        None => effects0(),
    }
}

/// Moves a checkpoint past an archive that was made already: its change is no longer
/// active.
pub fn resume_archive(state: &mut RunState, changes: &ChangeSnapshot) -> (r: Vec<Effect>)
    ensures
        final(state)@.stage != old(state)@.stage ==> old(state)@.stage == Stage::Archive && final(
            state
        )@.stage == Stage::FinalCommit,
        (old(state)@.change matches Some(c) && change_names(changes@).contains(c)) ==> final(state)@
            == old(state)@,
        old(state)@.stage == Stage::Archive && (old(state)@.change matches Some(c)
            && !change_names(changes@).contains(c)) ==> final(state)@.stage == Stage::FinalCommit,
        ({
            let s = old(state)@;
            let archived = s.stage == Stage::Archive && (s.change matches Some(c) && !change_names(
                changes@,
            ).contains(c));
            if archived {
                final(state)@ == (RunStateView { stage: Stage::FinalCommit, ..s }) && seen_all(r@)
                    == seq![
                    EffectView::Warn(
                        "The active change is already absent; continuing at completion commit"@,
                    ),
                ]
            } else {
                final(state)@ == s && seen_all(r@) == Seq::<EffectView>::empty()
            }
        }),
{
    if state.stage == Stage::Archive {
        let absent = match &state.change {
            Some(change) => crate::openspec::archive_is_absent(changes, change.as_str()),
            None => false,
        };
        if absent {
            state.stage = Stage::FinalCommit;
            return effects1(
                Effect::Warn(
                    "The active change is already absent; continuing at completion commit".to_owned(),
                ),
            );
        }
    }
    effects0()
}

/// The message on where a checkpoint is taken up.
pub fn resume_notice(state: &RunState) -> (r: String)
    ensures
        r@ == "Resuming `"@ + (match state@.change {
            Some(change) => change,
            None => "planning run"@,
        }) + "` at "@ + state@.stage.name(),
{
    let change = match &state.change {
        Some(change) => change.as_str(),
        None => "planning run",
    };
    cat4("Resuming `", change, "` at ", state.stage.title())
}

/// The state that goes on with an active change, past its proposal commit where
/// milestone commits are off.
pub fn continue_existing(change: String, active: ChangeSnapshot, yolo: bool) -> (r: Result<
    (RunState, Vec<Effect>),
    Failure,
>)
    ensures
        match r {
            Ok((state, effects)) => {
                &&& state@.stage == (if yolo {
                    Stage::Apply
                } else {
                    Stage::ProposalCommit
                })
                &&& state@.before_changes == active@
                &&& state@.too_large is None && state@.campaign is None && state@.agenda is None
                &&& valid_change_name(change@)
                &&& state@ == (RunStateView {
                    change: Some(change@),
                    stage: follows_propose(yolo),
                    ..new_state(
                        "Continue existing OpenSpec change `"@ + change@ + "`"@,
                        active@,
                    )
                })
                &&& seen_all(effects@) == seq![
                    EffectView::Info(
                        "Continuing OpenSpec change `"@ + change@ + "`; "@ + (if yolo {
                            "YOLO mode skips the planning commit"@
                        } else {
                            "planning work will be committed if necessary"@
                        }),
                    ),
                ]
            },
            Err(e) => !valid_change_name(change@) && e.message@
                == "OpenSpec returned unsafe change name `"@ + change@
                + "`; expected lowercase kebab-case"@,
        },
{
    match validate_change_name(change.as_str()) {
        Err(e) => {
            return Err(e);
        },
        Ok(()) => {},
    }
    let manner = if yolo {
        "YOLO mode skips the planning commit"
    } else {
        "planning work will be committed if necessary"
    };
    let note = cat4("Continuing OpenSpec change `", change.as_str(), "`; ", manner);
    let mut state = RunState::continue_existing(change, active);
    state.stage = stage_after_propose(yolo);
    Ok((state, effects1(Effect::Info(note))))
}

// What an assignment keeps

/// A checkpoint is taken up with everything that it recorded but the limit of its campaign,
/// which is exactly the one that is given, if one is. A campaign is begun where one is
/// asked for and there is none, and one that there is is never begun again or dropped.
pub proof fn law_a_checkpoint_is_taken_up_whole(
    s: RunStateView,
    request: Seq<char>,
    loop_workflow: bool,
    limit: Option<u32>,
)
    ensures
        ({
            let r = resumed(s, request, loop_workflow, limit);
            &&& (RunStateView { campaign: s.campaign, ..r.state }) == s
            &&& r.result is Err ==> r.state == s && r.effects.len() == 0
            &&& r.result is Ok && (s.campaign matches Some(c)) ==> (r.state.campaign matches Some(d)
                && d.iteration == s.campaign->0.iteration && d.completed
                == s.campaign->0.completed && d.max_iterations == (if limit is Some {
                limit
            } else {
                s.campaign->0.max_iterations
            }))
            &&& r.result is Ok && s.campaign is None && loop_workflow ==> (
            r.state.campaign matches Some(d) && d.iteration == 1 && d.completed.len() == 0
                && d.max_iterations == limit)
            &&& r.result is Ok && s.campaign is None && !loop_workflow ==> r.state.campaign is None
            &&& r.result is Ok && (s.too_large matches Some(t)) ==> r.effects.len() == 1
                && r.effects[0] is Warn && trimmed(s.too_large->0.summary).is_suffix_of(
                r.effects[0]->Warn_0,
            )
            &&& r.result is Ok && s.too_large is None ==> r.effects.len() == 0
        }),
{
    if s.too_large is Some {
        let text = trimmed(s.too_large->0.summary);
        let shown = escalation_notice(s)[0]->Warn_0;
        assert(shown.subrange(shown.len() - text.len(), shown.len() as int) =~= text);
    }
}

/// A checkpoint is refused only where another request was recorded in it, or where it is
/// over and no campaign goes on. Where nothing is asked for, the recorded request stands.
pub proof fn law_only_other_or_ended_runs_are_refused(
    s: RunStateView,
    request: Seq<char>,
    loop_workflow: bool,
    limit: Option<u32>,
)
    ensures
        ({
            let over = s.campaign is None && (s.stage == Stage::Complete || s.stage == Stage::Done);
            let other = request.len() > 0 && request != s.request;
            resumed(s, request, loop_workflow, limit).result is Err <==> over || other
        }),
        resumed(s, s.request, loop_workflow, limit) == resumed(
            s,
            Seq::empty(),
            loop_workflow,
            limit,
        ),
{
}

/// What has to be resumed can be resumed: a checkpoint that keeps a new run from being begun
/// is not refused for being over.
pub proof fn law_unfinished_runs_can_be_resumed(
    s: RunStateView,
    loop_workflow: bool,
    limit: Option<u32>,
)
    requires
        unfinished(s),
    ensures
        resumed(s, Seq::empty(), loop_workflow, limit).result is Ok,
{
}

/// A run is unfinished while it has a stage before it, or a campaign that its completed
/// change belongs to.
pub proof fn law_what_counts_as_unfinished(s: RunStateView)
    ensures
        s.stage == Stage::Done ==> !unfinished(s),
        s.stage == Stage::Complete ==> (unfinished(s) <==> s.campaign is Some),
        s.stage != Stage::Done && s.stage != Stage::Complete ==> unfinished(s),
{
}

/// A run that is to advance the agenda gets exactly the slice that is offered, for the change
/// that the slice names, and begins with its proposal, or past it where the proposal of an
/// active change is complete. Where every slice is archived the run is done. Where there is
/// no agenda, or it is not in order, the run is refused and stays as it was. Other runs get
/// nothing.
pub proof fn law_a_run_gets_the_slice_on_offer(
    s: RunStateView,
    selection: Result<SelectionView, Seq<char>>,
    planned: bool,
    yolo: bool,
)
    ensures
        ({
            let r = agenda_assigned(s, selection, planned, yolo);
            let advancing = s.request == "advance"@;
            let t = r.state;
            &&& !advancing ==> r.result is Ok && t == s && r.effects.len() == 0
            &&& advancing && (selection is Err || selection == Ok::<_, Seq<char>>(
                SelectionView::Absent,
            )) ==> r.result is Err && t == s
            &&& advancing && selection is Err ==> r.result == Err::<
                (),
                crate::effect::ErrorView,
            >(crate::effect::ErrorView::Other(selection->Err_0))
            &&& advancing && selection == Ok::<_, Seq<char>>(SelectionView::Complete)
                ==> r.result is Ok && t.stage == Stage::Done && t.change is None && t.agenda is None
                && t.terminal_summary is Some
            &&& advancing && (selection matches Ok(SelectionView::Next(_))) ==> {
                let a = selection->Ok_0->Next_0;
                let ready = planned && change_names(s.before_changes).contains(a.change);
                &&& r.result is Ok && t.agenda == Some(a) && t.change == Some(a.change)
                &&& t.stage == (if !ready {
                    Stage::Propose
                } else if yolo {
                    Stage::Apply
                } else {
                    Stage::ProposalCommit
                })
                &&& t.terminal_summary == s.terminal_summary
            }
            &&& (RunStateView {
                change: s.change,
                agenda: s.agenda,
                stage: s.stage,
                terminal_summary: s.terminal_summary,
                ..t
            }) == s
        }),
{
}

/// A prescribed change is taken exactly where its name is one that a change may have and no
/// active change has it. Nothing but the name is changed, and a refusal changes nothing.
pub proof fn law_prescribed_changes_are_new(s: RunStateView, change: Option<Seq<char>>)
    ensures
        ({
            let r = change_assigned(s, change);
            &&& change is None ==> r.result is Ok && r.state == s
            &&& change matches Some(name) ==> (r.result is Ok <==> valid_change_name(name)
                && !change_names(s.before_changes).contains(name))
            &&& change is Some && r.result is Ok ==> r.state == (RunStateView { change, ..s })
            &&& r.result is Err ==> r.state == s
        }),
{
}

/// A state to come back to is recorded for every run that has work before it and may hand it
/// to the frontier model.
pub proof fn law_open_runs_can_be_put_back(s: RunStateView)
    ensures
        s.local_only ==> !needs_baseline(s),
        s.stage == Stage::Complete || s.stage == Stage::Done ==> !needs_baseline(s),
        !s.local_only && s.stage != Stage::Complete && s.stage != Stage::Done ==> needs_baseline(s),
{
}

} // verus!
