//! The frontier model's part: dividing a slice that is too large, reviewing the project
//! before the terminal slice that ends the agenda, and what the repository has to show for it.
use crate::agenda::{
    is_terminal_assignment, terminal, AgendaAssignment, AgendaSelection, AssignmentView,
};
use crate::backend::{
    AgentError, MissingTerminalResult, SessionId, SessionMode, SessionModeView, StageProtocol,
    StageResult, StageSignal,
};
use crate::effect::{
    answer, blocked, blocked_message, effects2, effects3, effects4, effects5, ended, fresh,
    fresh_session, refuse, unexpected, unexpected_message, Effect, EffectView, ErrorView,
    Superseding, Turn, TurnView,
};
use crate::failure::{fail, fail_with, failed, Failure};
use crate::git::{BaselineView, RollbackReport, SliceBaseline};
use crate::names::{Harness, HarnessView};
use crate::openspec::ChangeSnapshot;
use crate::prompts::{
    frontier_replan_prompt, outcome_of, prompt_of, replanning, reviewing, stage_prompt,
    terminal_review_prompt,
};
use crate::stage::{Stage, AGENDA_TOTAL_STAGES};
use crate::state::{RunState, RunStateView, TooLargeOutcome, TooLargeView};
use crate::text::{
    cat2, cat3, cat4, cat5, equal, holds, join, joined, lines, lines_of, push_text, seen, seen_all,
    starts, starts_with, str_option, text_option, texts, trim, trimmed,
};
use crate::workflow::{short, short_hash};
use vstd::prelude::*;
use vstd::string::*;

verus! {

pub const MAX_FRONTIER_REPLANS: u32 = 3;

pub const MAX_TERMINAL_REMEDIATIONS: u32 = 3;

pub const AGENDA_PREFIX: &'static str = "automation/slices/";

/// An error with what was done about it in front. A pause shows no message, and stays
/// what it is.
pub open spec fn in_context(e: ErrorView, context: Seq<char>) -> ErrorView {
    match e {
        ErrorView::Pause => ErrorView::Pause,
        ErrorView::Escalation(reason) => ErrorView::Escalation(context + ": "@ + reason),
        ErrorView::MissingTerminal(message) => ErrorView::MissingTerminal(
            context + ": "@ + message,
        ),
        ErrorView::Other(message) => ErrorView::Other(context + ": "@ + message),
    }
}

pub fn with_context(e: AgentError, context: &str) -> (r: AgentError)
    ensures
        r@ == in_context(e@, context@),
{
    match e {
        AgentError::Pause => AgentError::Pause,
        AgentError::Escalation { reason } => AgentError::Escalation {
            reason: cat3(context, ": ", reason.as_str()),
        },
        AgentError::MissingTerminal { result } => {
            let message = result.message();
            AgentError::MissingTerminal {
                result: MissingTerminalResult::new(
                    cat3(context, ": ", message.as_str()).as_str(),
                    None,
                ),
            }
        },
        AgentError::Other { message } => AgentError::Other {
            message: cat3(context, ": ", message.as_str()),
        },
    }
}

// Dividing a slice

/// How the division of a slice begins.
pub enum ReplanStart {
    Refused(Failure),
    /// The repository is put back first.
    RefusedAfterReset(Failure),
    /// The repository is put back, and the frontier model is asked.
    Proceed { outcome: TooLargeOutcome, assignment: AgendaAssignment, baseline: SliceBaseline },
}

pub open spec fn replan_limit_message(a: AssignmentView, outcome: TooLargeView) -> Seq<char> {
    "frontier subdivision reached its limit of 3 successful replans for `"@ + a.change
        + "` after restoring the pre-Propose baseline; the latest worker report was: "@ + trimmed(
        outcome.summary,
    )
}

/// Begins the division of a slice. It takes a report, a slice and a state to come back
/// to, and happens a limited number of times.
pub fn replan_start(state: &RunState) -> (r: ReplanStart)
    ensures
        r is Proceed <==> state@.too_large is Some && state@.agenda is Some && state@.slice_baseline
            is Some && state@.frontier_replans < 3,
        r is RefusedAfterReset ==> state@.slice_baseline is Some && state@.frontier_replans >= 3,
        match (state@.too_large, state@.agenda, state@.slice_baseline) {
            (None, _, _) => r matches ReplanStart::Refused(e) && e.message@
                == "worker escalation omitted its durable outcome"@,
            (Some(_), None, _) => r matches ReplanStart::Refused(e) && e.message@
                == "frontier subdivision currently requires an ordered agenda assignment"@,
            (Some(_), Some(_), None) => r matches ReplanStart::Refused(e) && e.message@
                == "worker escalation has no recorded pre-Propose rollback baseline"@,
            (Some(o), Some(a), Some(b)) => if state@.frontier_replans >= MAX_FRONTIER_REPLANS {
                r matches ReplanStart::RefusedAfterReset(e) && e.message@ == replan_limit_message(
                    a,
                    o,
                )
            } else {
                r matches ReplanStart::Proceed { outcome, assignment, baseline } && outcome@ == o
                    && assignment@ == a && baseline@ == b
            },
        },
{
    let outcome = match &state.too_large {
        None => {
            return ReplanStart::Refused(
                Failure::new("worker escalation omitted its durable outcome".to_owned()),
            );
        },
        Some(outcome) => outcome,
    };
    let assignment = match &state.agenda {
        None => {
            return ReplanStart::Refused(
                Failure::new(
                    "frontier subdivision currently requires an ordered agenda assignment".to_owned(),
                ),
            );
        },
        Some(a) => a,
    };
    let baseline = match &state.slice_baseline {
        None => {
            return ReplanStart::Refused(
                Failure::new(
                    "worker escalation has no recorded pre-Propose rollback baseline".to_owned(),
                ),
            );
        },
        Some(b) => b,
    };
    if state.frontier_replans >= MAX_FRONTIER_REPLANS {
        let bare = trim(outcome.summary.as_str());
        return ReplanStart::RefusedAfterReset(
            Failure::new(
                cat4(
                    "frontier subdivision reached its limit of 3 successful replans for `",
                    assignment.change.as_str(),
                    "` after restoring the pre-Propose baseline; the latest worker report was: ",
                    bare.as_str(),
                ),
            ),
        );
    }
    ReplanStart::Proceed {
        outcome: outcome.copy(),
        assignment: assignment.copy(),
        baseline: baseline.copy(),
    }
}

/// The messages on an attempt that was given up and put back.
pub open spec fn abandonment(
    what: Seq<char>,
    stage: Stage,
    head: Seq<char>,
    report: RollbackReport,
) -> Seq<EffectView> {
    let first = EffectView::Warn(
        "Abandoned the "@ + what + " "@ + stage.name() + " attempt and restored pre-Propose HEAD "@
            + short(head),
    );
    let second = EffectView::Info(
        "Failed-attempt diagnostic retained at `"@ + report.diagnostic_path@ + "`"@,
    );
    match report.recovery_ref {
        Some(reference) => seq![
            first,
            second,
            EffectView::Info("Failed-attempt commits retained at `"@ + reference@ + "`"@),
        ],
        None => seq![first, second],
    }
}

/// What is said of an attempt that was given up: a local one, or one at the terminal slice.
pub fn abandoned_effects(what: &str, stage: Stage, head: &str, report: &RollbackReport) -> (r: Vec<
    Effect,
>)
    ensures
        seen_all(r@) == abandonment(what@, stage, head@, *report),
{
    let shown = short_hash(head);
    let first = Effect::Warn(
        cat5(
            "Abandoned the ",
            what,
            " ",
            stage.title(),
            " attempt and restored pre-Propose HEAD ",
        ).concat(shown.as_str()),
    );
    let second = Effect::Info(
        cat3("Failed-attempt diagnostic retained at `", report.diagnostic_path.as_str(), "`"),
    );
    match &report.recovery_ref {
        Some(reference) => effects3(
            first,
            second,
            Effect::Info(cat3("Failed-attempt commits retained at `", reference.as_str(), "`")),
        ),
        None => effects2(first, second),
    }
}

/// Checks that putting an attempt back has restored the active changes as recorded.
pub fn check_restored_changes(
    restored: &ChangeSnapshot,
    state: &RunState,
    rollback: &str,
    report: &RollbackReport,
) -> (r: Result<(), Failure>)
    ensures
        r is Ok <==> restored@ == state@.before_changes,
        if restored@ == state@.before_changes {
            r is Ok
        } else {
            failed(
                r,
                rollback@
                    + " rollback did not restore the recorded OpenSpec state; recovery data remains at `"@
                    + report.diagnostic_path@ + "`"@,
            )
        },
{
    if restored.same(&state.before_changes) {
        Ok(())
    } else {
        fail(
            cat4(
                rollback,
                " rollback did not restore the recorded OpenSpec state; recovery data remains at `",
                report.diagnostic_path.as_str(),
                "`",
            ),
        )
    }
}

/// Where the division of a slice is shown to stand.
pub fn replan_position(stage: Stage) -> (r: (usize, usize))
    ensures
        r.0 == (if stage.position() > 1 {
            stage.position() - 1
        } else {
            1
        }),
        r.1 == AGENDA_TOTAL_STAGES,
{
    let n: usize = stage.number();
    if n > 1 {
        (n - 1, AGENDA_TOTAL_STAGES)
    } else {
        (1, AGENDA_TOTAL_STAGES)
    }
}

pub const REPLAN_REPAIR: &'static str = "\nThe repository has again been restored to the recorded pre-Propose baseline, including any pre-existing user edits. Perform and commit the required agenda-only subdivision now.";

pub const REVIEW_REPAIR: &'static str = "\nThe repository has again been restored to the exact pre-9999 baseline. Perform the review again and satisfy either the unchanged READY contract or the committed agenda-only REPLANNED contract.";

/// The conversation of the two turns: begun in the first, gone on with in the second.
pub open spec fn two_turns(id: Seq<char>, name: Seq<char>, first: bool) -> SessionModeView {
    if first {
        fresh(id, name)
    } else {
        SessionModeView::Resume { id }
    }
}

fn two_turn_session(id: &SessionId, name: &str, first: bool) -> (r: SessionMode)
    ensures
        r@ == two_turns(id@, name@, first),
{
    if first {
        fresh_session(id.as_str(), name)
    } else {
        SessionMode::Resume { id: id.copy() }
    }
}

/// The prompt that divides a slice: in the second turn with why the first was rejected.
pub open spec fn replan_prompt(
    a: AssignmentView,
    o: TooLargeView,
    failure: Option<Seq<char>>,
    h: HarnessView,
) -> Seq<char> {
    match failure {
        None => replanning(a, o, h),
        Some(f) => replanning(a, o, h)
            + "\n\nPOSTCONDITION REPAIR: The preceding frontier attempt was rejected: "@ + f
            + REPLAN_REPAIR@,
    }
}

pub fn replan_turn(
    assignment: &AgendaAssignment,
    outcome: &TooLargeOutcome,
    failure: Option<&str>,
    session: &SessionId,
    harness: &Harness,
) -> (r: Turn)
    ensures
        r@ == (TurnView {
            session: two_turns(
                session@,
                assignment@.change + "-frontier-replan"@,
                failure is None,
            ),
            prompt: prompt_of(
                Seq::empty(),
                replan_prompt(assignment@, outcome@, str_option(failure), harness@),
                StageProtocol::Frontier,
            ),
            activity: if failure is None {
                "Frontier agent is subdividing the oversized agenda slice"@
            } else {
                "Frontier agent is correcting the agenda subdivision"@
            },
            protocol: StageProtocol::Frontier,
        }),
{
    let base = frontier_replan_prompt(assignment, outcome, harness);
    let prompt = match failure {
        None => base,
        Some(f) => base.concat(
            "\n\nPOSTCONDITION REPAIR: The preceding frontier attempt was rejected: ",
        ).concat(f).concat(REPLAN_REPAIR),
    };
    let name = cat2(assignment.change.as_str(), "-frontier-replan");
    let first = failure.is_none();
    proof {
        reveal_strlit("");
        assert(""@ =~= Seq::empty());
    }
    Turn {
        session: two_turn_session(session, name.as_str(), first),
        prompt: stage_prompt("", prompt.as_str(), StageProtocol::Frontier),
        activity: if first {
            "Frontier agent is subdividing the oversized agenda slice".to_owned()
        } else {
            "Frontier agent is correcting the agenda subdivision".to_owned()
        },
        protocol: StageProtocol::Frontier,
    }
}

pub const REPLAN_FAILED: &'static str = "frontier replan invocation failed; the pre-Propose baseline was restored";

pub const REPLAN_REJECTED_TWICE: &'static str = "frontier replan failed its repository postcondition twice; the pre-Propose baseline was restored";

pub const REVIEW_FAILED: &'static str = "frontier acceptance review failed; the pre-9999 baseline was restored";

pub const REVIEW_REJECTED_TWICE: &'static str = "frontier acceptance review failed its repository contract twice; the pre-9999 baseline was restored";

/// Takes the answer on the division of a slice. Whatever is an error here is reported
/// after the repository is put back.
pub fn replan_answered(outcome: Result<StageResult, AgentError>) -> (r: Result<(), AgentError>)
    ensures
        r is Ok <==> (answer(outcome) matches Ok(a) && a.signal == StageSignal::Replanned),
        answer(outcome) matches Err(ErrorView::Pause) ==> (r matches Err(AgentError::Pause)),
        ended(r) == (match answer(outcome) {
            Ok(result) => match result.signal {
                StageSignal::Replanned => Ok::<(), ErrorView>(()),
                StageSignal::Blocked => Err(
                    ErrorView::Other(blocked_message("frontier replan"@, result.text)),
                ),
                other => Err(ErrorView::Other(unexpected_message("frontier replan"@, other))),
            },
            Err(e) => Err(in_context(e, REPLAN_FAILED@)),
        }),
{
    match outcome {
        Ok(result) => match result.signal {
            StageSignal::Replanned => Ok(()),
            StageSignal::Blocked => refuse(blocked("frontier replan", result.text.as_str())),
            other => refuse(unexpected("frontier replan", other)),
        },
        Err(e) => Err(with_context(e, REPLAN_FAILED)),
    }
}

// What the repository has to show

/// What has been found out about a repository after the frontier model was at work.
/// Each fact is looked up only when it is asked for.
pub struct Evidence {
    pub head: Option<Option<String>>,
    pub descends: Option<bool>,
    pub committed: Option<Vec<String>>,
    pub preserved: Option<bool>,
    pub changes_unchanged: Option<bool>,
    pub terminal_unchanged: Option<bool>,
    pub selection: Option<Result<AgendaSelection, Failure>>,
    pub subdivided: Option<bool>,
    pub readme: Option<bool>,
}

impl Evidence {
    /// Nothing known yet.
    pub fn none() -> (r: Evidence)
        ensures
            r == (Evidence {
                head: None,
                descends: None,
                committed: None,
                preserved: None,
                changes_unchanged: None,
                terminal_unchanged: None,
                selection: None,
                subdivided: None,
                readme: None,
            }),
    {
        Evidence {
            head: None,
            descends: None,
            committed: None,
            preserved: None,
            changes_unchanged: None,
            terminal_unchanged: None,
            selection: None,
            subdivided: None,
            readme: None,
        }
    }
}

/// A fact to look up.
#[derive(Debug, Clone, Copy, PartialEq, Eq, Structural)]
pub enum Question {
    /// The commit that is checked out.
    Head,
    /// Whether it descends from the baseline.
    Descends,
    /// The paths committed since the baseline.
    Committed,
    /// Whether the rest of the repository is as recorded.
    Preserved,
    /// Whether the active changes are as recorded.
    Changes,
    /// Whether the terminal slice is as it was.
    Terminal,
    /// What the agenda offers.
    Agenda,
    /// Whether the slice has children.
    Subdivision,
    /// Whether the agenda has its README.
    Readme,
}

/// What the facts known so far say.
pub enum Finding {
    /// A fact is missing.
    Ask(Question),
    Rejected(Failure),
    /// The slice that comes next.
    Accepted(AgendaAssignment),
    /// Nothing was changed, as promised.
    Unchanged,
}

pub enum FindingView {
    Ask(Question),
    Rejected(Seq<char>),
    Accepted(AssignmentView),
    Unchanged,
}

impl View for Finding {
    type V = FindingView;

    open spec fn view(&self) -> FindingView {
        match *self {
            Finding::Ask(q) => FindingView::Ask(q),
            Finding::Rejected(e) => FindingView::Rejected(e.message@),
            Finding::Accepted(a) => FindingView::Accepted(a@),
            Finding::Unchanged => FindingView::Unchanged,
        }
    }
}

/// The paths outside the agenda.
pub open spec fn outside_agenda(paths: Seq<Seq<char>>) -> Seq<Seq<char>> {
    paths.filter(|path: Seq<char>| !starts(path, AGENDA_PREFIX@))
}

fn paths_outside_agenda(paths: &Vec<String>) -> (r: Vec<String>)
    ensures
        texts(r@) == outside_agenda(texts(paths@)),
{
    let mut out: Vec<String> = Vec::new();
    let mut i: usize = 0;
    let ghost t = texts(paths@);
    let ghost pred = |path: Seq<char>| !starts(path, AGENDA_PREFIX@);
    proof {
        reveal(Seq::filter);
    }
    assert(texts(out@) =~= t.take(0).filter(pred));
    while i < paths.len()
        invariant
            i <= paths@.len(),
            t == texts(paths@),
            pred == (|path: Seq<char>| !starts(path, AGENDA_PREFIX@)),
            texts(out@) == t.take(i as int).filter(pred),
        decreases paths@.len() - i,
    {
        proof {
            reveal(Seq::filter);
            assert(t.take(i + 1).drop_last() =~= t.take(i as int));
            assert(t.take(i + 1).last() == paths@[i as int]@);
        }
        if !starts_with(paths[i].as_str(), AGENDA_PREFIX) {
            push_text(&mut out, paths[i].as_str());
        }
        i += 1;
    }
    assert(t.take(i as int) =~= t);
    out
}

/// Whether a commit on the agenda alone was put on top of the baseline: what is still to
/// be asked or what is wrong, as far as the history goes. `who` did it, and `history` is
/// what it must not have replaced.
pub open spec fn history_finding(
    e: Evidence,
    baseline_head: Seq<char>,
    who: Seq<char>,
    history: Seq<char>,
    preserved: Seq<char>,
) -> Option<FindingView> {
    match e.head {
        None => Some(FindingView::Ask(Question::Head)),
        Some(None) => Some(FindingView::Rejected(who + " did not leave a Git HEAD"@)),
        Some(Some(head)) => if head@ == baseline_head {
            Some(FindingView::Rejected(who + " did not create a commit"@))
        } else {
            match e.descends {
                None => Some(FindingView::Ask(Question::Descends)),
                Some(false) => Some(
                    FindingView::Rejected(who + " rewrote or replaced "@ + history + " Git history"@),
                ),
                Some(true) => match e.committed {
                    None => Some(FindingView::Ask(Question::Committed)),
                    Some(paths) => if paths@.len() == 0 {
                        Some(FindingView::Rejected(who + " commit changed no files"@))
                    } else if outside_agenda(texts(paths@)).len() > 0 {
                        Some(
                            FindingView::Rejected(
                                who + " committed files outside `automation/slices/`: "@ + joined(
                                    outside_agenda(texts(paths@)),
                                    ", "@,
                                ),
                            ),
                        )
                    } else {
                        match e.preserved {
                            None => Some(FindingView::Ask(Question::Preserved)),
                            Some(false) => Some(
                                FindingView::Rejected(
                                    who + " did not preserve "@ + preserved
                                        + " state outside `automation/slices/` exactly"@,
                                ),
                            ),
                            Some(true) => match e.changes_unchanged {
                                None => Some(FindingView::Ask(Question::Changes)),
                                Some(false) => Some(
                                    FindingView::Rejected(who + " changed OpenSpec state"@),
                                ),
                                Some(true) => None,
                            },
                        }
                    },
                },
            }
        },
    }
}

fn check_history(
    e: &Evidence,
    baseline_head: &str,
    who: &str,
    history: &str,
    preserved: &str,
) -> (r: Option<Finding>)
    ensures
        seen(r) == history_finding(*e, baseline_head@, who@, history@, preserved@),
{
    match &e.head {
        None => {
            return Some(Finding::Ask(Question::Head));
        },
        Some(None) => {
            return Some(
                Finding::Rejected(Failure::new(cat2(who, " did not leave a Git HEAD"))),
            );
        },
        Some(Some(head)) => {
            if equal(head.as_str(), baseline_head) {
                return Some(
                    Finding::Rejected(Failure::new(cat2(who, " did not create a commit"))),
                );
            }
        },
    }
    match e.descends {
        None => {
            return Some(Finding::Ask(Question::Descends));
        },
        Some(false) => {
            return Some(
                Finding::Rejected(
                    Failure::new(cat4(who, " rewrote or replaced ", history, " Git history")),
                ),
            );
        },
        Some(true) => {},
    }
    match &e.committed {
        None => {
            return Some(Finding::Ask(Question::Committed));
        },
        Some(paths) => {
            if paths.len() == 0 {
                return Some(
                    Finding::Rejected(Failure::new(cat2(who, " commit changed no files"))),
                );
            }
            let outside = paths_outside_agenda(paths);
            assert(texts(outside@).len() == outside@.len());
            if outside.len() > 0 {
                let list = join(&outside, ", ");
                return Some(
                    Finding::Rejected(
                        Failure::new(
                            cat3(
                                who,
                                " committed files outside `automation/slices/`: ",
                                list.as_str(),
                            ),
                        ),
                    ),
                );
            }
        },
    }
    match e.preserved {
        None => {
            return Some(Finding::Ask(Question::Preserved));
        },
        Some(false) => {
            return Some(
                Finding::Rejected(
                    Failure::new(
                        cat4(
                            who,
                            " did not preserve ",
                            preserved,
                            " state outside `automation/slices/` exactly",
                        ),
                    ),
                ),
            );
        },
        Some(true) => {},
    }
    match e.changes_unchanged {
        None => Some(Finding::Ask(Question::Changes)),
        Some(false) => Some(
            Finding::Rejected(Failure::new(cat2(who, " changed OpenSpec state"))),
        ),
        Some(true) => None,
    }
}

/// What the facts say of the division of a slice: it keeps the slice as the next one,
/// narrower than before, with at least one child.
pub open spec fn replan_finding(e: Evidence, baseline_head: Seq<char>, original: AssignmentView) -> FindingView {
    match history_finding(
        e,
        baseline_head,
        "frontier replan"@,
        "the pre-Propose"@,
        "the pre-existing"@,
    ) {
        Some(finding) => finding,
        None => match e.selection {
            None => FindingView::Ask(Question::Agenda),
            Some(Err(failure)) => FindingView::Rejected(failure.message@),
            Some(Ok(AgendaSelection::Next(refreshed))) => {
                let a = refreshed@;
                if a.path != original.path || a.change != original.change {
                    FindingView::Rejected(
                        "frontier replan replaced the assigned first slice instead of preserving `"@
                            + original.path + "`"@,
                    )
                } else if a.content == original.content {
                    FindingView::Rejected(
                        "frontier replan did not narrow the original agenda slice"@,
                    )
                } else {
                    match e.subdivided {
                        None => FindingView::Ask(Question::Subdivision),
                        Some(false) => FindingView::Rejected(
                            "frontier replan did not add a hierarchical child slice"@,
                        ),
                        Some(true) => FindingView::Accepted(a),
                    }
                }
            },
            Some(Ok(_)) => FindingView::Rejected(
                "frontier replan left no next ordered agenda slice"@,
            ),
        },
    }
}

/// Holds the division of a slice against the repository.
pub fn frontier_replan_postcondition(e: &Evidence, baseline_head: &str, original: &AgendaAssignment) -> (r:
    Finding)
    ensures
        r@ == replan_finding(*e, baseline_head@, original@),
{
    if let Some(finding) = check_history(
        e,
        baseline_head,
        "frontier replan",
        "the pre-Propose",
        "the pre-existing",
    ) {
        return finding;
    }
    match &e.selection {
        None => Finding::Ask(Question::Agenda),
        Some(Err(failure)) => Finding::Rejected(Failure::new(failure.message.clone())),
        Some(Ok(AgendaSelection::Next(a))) => {
            if !equal(a.path.as_str(), original.path.as_str()) || !equal(
                a.change.as_str(),
                original.change.as_str(),
            ) {
                return Finding::Rejected(
                    Failure::new(
                        cat3(
                            "frontier replan replaced the assigned first slice instead of preserving `",
                            original.path.as_str(),
                            "`",
                        ),
                    ),
                );
            }
            if equal(a.content.as_str(), original.content.as_str()) {
                return Finding::Rejected(
                    Failure::new(
                        "frontier replan did not narrow the original agenda slice".to_owned(),
                    ),
                );
            }
            match e.subdivided {
                None => Finding::Ask(Question::Subdivision),
                Some(false) => Finding::Rejected(
                    Failure::new(
                        "frontier replan did not add a hierarchical child slice".to_owned(),
                    ),
                ),
                Some(true) => Finding::Accepted(a.copy()),
            }
        },
        Some(Ok(_)) => Finding::Rejected(
            Failure::new("frontier replan left no next ordered agenda slice".to_owned()),
        ),
    }
}

/// A division is accepted only where it is a commit of agenda files on top of the
/// baseline that leaves everything else as it was, and leaves the same slice next, with
/// other content.
pub proof fn law_accepted_replan_only_narrows_the_agenda(
    e: Evidence,
    baseline_head: Seq<char>,
    original: AssignmentView,
    a: AssignmentView,
)
    requires
        replan_finding(e, baseline_head, original) == FindingView::Accepted(a),
    ensures
        a.path == original.path,
        a.change == original.change,
        a.content != original.content,
        e.head matches Some(Some(head)) && head@ != baseline_head,
        e.descends == Some(true),
        e.preserved == Some(true),
        e.changes_unchanged == Some(true),
        e.subdivided == Some(true),
        e.committed matches Some(paths) && paths@.len() > 0 && outside_agenda(
            texts(paths@),
        ).len() == 0,
{
}

/// The state once a slice is divided: planned again from the start.
pub open spec fn replanned(s: RunStateView, a: AssignmentView, before: Seq<(Seq<char>, Seq<char>)>) -> RunStateView {
    RunStateView {
        frontier_replans: (s.frontier_replans + 1) as u32,
        too_large: None,
        change: Some(a.change),
        agenda: Some(a),
        stage: Stage::Propose,
        planning_session: None,
        planning_backend: None,
        verify_retries: 0,
        pending_repair: None,
        proposal_head: None,
        final_head: None,
        before_changes: before,
        ..s
    }
}

/// What a divided slice asks for: a new state to come back to, recorded and written
/// before the one that it was divided from is let go.
pub open spec fn replan_effects(a: AssignmentView, superseded: BaselineView) -> Seq<EffectView> {
    seq![
        EffectView::ArmBaseline,
        EffectView::Persist,
        EffectView::ReleaseBaseline(superseded, Superseding::Division),
        EffectView::Success(
            "Frontier replanned `"@ + a.change
                + "` into smaller ordered slices; restarting at Propose"@,
        ),
    ]
}

/// Takes a division over. `baseline` is the state that the slice was divided from.
pub fn replan_accepted(
    state: &mut RunState,
    refreshed: AgendaAssignment,
    before_changes: ChangeSnapshot,
    baseline: SliceBaseline,
) -> (r: Vec<Effect>)
    requires
        old(state).frontier_replans < MAX_FRONTIER_REPLANS,
    ensures
        final(state)@ == replanned(old(state)@, refreshed@, before_changes@),
        seen_all(r@) == replan_effects(refreshed@, baseline@),
{
    state.frontier_replans = state.frontier_replans + 1;
    state.too_large = None;
    let praise = cat3(
        "Frontier replanned `",
        refreshed.change.as_str(),
        "` into smaller ordered slices; restarting at Propose",
    );
    state.change = Some(refreshed.change.clone());
    state.agenda = Some(refreshed);
    state.stage = Stage::Propose;
    state.planning_session = None;
    state.planning_backend = None;
    state.verify_retries = 0;
    state.pending_repair = None;
    state.proposal_head = None;
    state.final_head = None;
    state.before_changes = before_changes;
    effects4(
        Effect::ArmBaseline,
        Effect::Persist,
        Effect::ReleaseBaseline(baseline, Superseding::Division),
        Effect::Success(praise),
    )
}

/// A slice is divided at most the permitted number of times: a division is begun only
/// below the limit, and each accepted one is counted.
pub proof fn law_replans_are_bounded(s: RunStateView, a: AssignmentView, before: Seq<(Seq<char>, Seq<char>)>)
    requires
        s.frontier_replans < MAX_FRONTIER_REPLANS,
    ensures
        replanned(s, a, before).frontier_replans == s.frontier_replans + 1,
        replanned(s, a, before).frontier_replans <= MAX_FRONTIER_REPLANS,
        replanned(s, a, before).too_large is None,
{
}

/// What a rejected result leads to: one more turn, or the end.
pub enum Rejection {
    Retry(Effect),
    Over(Failure),
}

/// Decides on a rejected division. The repository is put back either way.
pub fn replan_rejected(first: bool, failure: &Failure) -> (r: Rejection)
    ensures
        r is Retry <==> first,
        if first {
            r matches Rejection::Retry(effect) && effect@ == EffectView::Warn(
                "Frontier replan did not satisfy its repository postcondition: "@
                    + failure.message@,
            )
        } else {
            r matches Rejection::Over(e) && e.message@ == REPLAN_REJECTED_TWICE@ + ": "@
                + failure.message@
        },
{
    if first {
        Rejection::Retry(
            Effect::Warn(
                cat2(
                    "Frontier replan did not satisfy its repository postcondition: ",
                    failure.message.as_str(),
                ),
            ),
        )
    } else {
        Rejection::Over(
            Failure::new(cat3(REPLAN_REJECTED_TWICE, ": ", failure.message.as_str())),
        )
    }
}

// Reviewing the project

/// How the review of the project begins.
pub enum ReviewStart {
    Refused(Failure),
    /// The repository is put back first.
    RefusedAfterReset(Failure),
    /// The frontier model is asked. After a failed attempt the repository is put back
    /// first.
    Proceed { assignment: AgendaAssignment, baseline: SliceBaseline },
}

pub open spec fn review_limit_message(a: AssignmentView) -> Seq<char> {
    "terminal acceptance reached its limit of 3 frontier remediation rounds; `"@ + a.change
        + "` remains the terminal gate and the pre-Propose state is preserved"@
}

/// Begins the review of the project. It takes the terminal slice and a state to come
/// back to, and happens a limited number of times.
pub fn review_start(state: &RunState, after_failure: bool) -> (r: ReviewStart)
    ensures
        r is Proceed <==> (state@.agenda matches Some(a) && a.path
            == "automation/slices/9999-project-acceptance.md"@) && state@.slice_baseline is Some
            && state@.terminal_remediations < 3,
        r is RefusedAfterReset ==> after_failure && state@.terminal_remediations >= 3,
        match (state@.agenda, state@.slice_baseline) {
            (Some(a), Some(b)) if terminal(a) => if state@.terminal_remediations
                >= MAX_TERMINAL_REMEDIATIONS {
                if after_failure {
                    r matches ReviewStart::RefusedAfterReset(e) && e.message@
                        == review_limit_message(a)
                } else {
                    r matches ReviewStart::Refused(e) && e.message@ == review_limit_message(a)
                }
            } else {
                r matches ReviewStart::Proceed { assignment, baseline } && assignment@ == a
                    && baseline@ == b
            },
            (Some(a), None) if terminal(a) => r matches ReviewStart::Refused(e) && e.message@
                == "terminal review has no recorded pre-Propose rollback baseline"@,
            _ => r matches ReviewStart::Refused(e) && e.message@
                == "terminal review requires the canonical 9999 agenda assignment"@,
        },
{
    let assignment = match &state.agenda {
        Some(a) => {
            if !is_terminal_assignment(a) {
                return ReviewStart::Refused(
                    Failure::new(
                        "terminal review requires the canonical 9999 agenda assignment".to_owned(),
                    ),
                );
            }
            a
        },
        None => {
            return ReviewStart::Refused(
                Failure::new(
                    "terminal review requires the canonical 9999 agenda assignment".to_owned(),
                ),
            );
        },
    };
    let baseline = match &state.slice_baseline {
        None => {
            return ReviewStart::Refused(
                Failure::new(
                    "terminal review has no recorded pre-Propose rollback baseline".to_owned(),
                ),
            );
        },
        Some(b) => b,
    };
    if state.terminal_remediations >= MAX_TERMINAL_REMEDIATIONS {
        let failure = Failure::new(
            cat3(
                "terminal acceptance reached its limit of 3 frontier remediation rounds; `",
                assignment.change.as_str(),
                "` remains the terminal gate and the pre-Propose state is preserved",
            ),
        );
        return if after_failure {
            ReviewStart::RefusedAfterReset(failure)
        } else {
            ReviewStart::Refused(failure)
        };
    }
    ReviewStart::Proceed { assignment: assignment.copy(), baseline: baseline.copy() }
}

/// The prompt of a review: in the second turn with why the first was rejected.
pub open spec fn review_prompt(
    a: AssignmentView,
    escalation: Option<TooLargeView>,
    failure: Option<Seq<char>>,
    h: HarnessView,
) -> Seq<char> {
    match failure {
        None => reviewing(a, escalation, h),
        Some(f) => reviewing(a, escalation, h)
            + "\n\nPOSTCONDITION REPAIR: The preceding frontier response was rejected: "@ + f
            + REVIEW_REPAIR@,
    }
}

pub fn review_turn(
    assignment: &AgendaAssignment,
    escalation: Option<&TooLargeOutcome>,
    failure: Option<&str>,
    session: &SessionId,
    harness: &Harness,
) -> (r: Turn)
    ensures
        r@ == (TurnView {
            session: two_turns(session@, "9999-frontier-acceptance-review"@, failure is None),
            prompt: prompt_of(
                Seq::empty(),
                review_prompt(assignment@, outcome_of(escalation), str_option(failure), harness@),
                StageProtocol::TerminalReview,
            ),
            activity: if failure is None {
                "Frontier agent is reviewing whole-project acceptance"@
            } else {
                "Frontier agent is correcting the acceptance review"@
            },
            protocol: StageProtocol::TerminalReview,
        }),
{
    let base = terminal_review_prompt(assignment, escalation, harness);
    let prompt = match failure {
        None => base,
        Some(f) => base.concat(
            "\n\nPOSTCONDITION REPAIR: The preceding frontier response was rejected: ",
        ).concat(f).concat(REVIEW_REPAIR),
    };
    let first = failure.is_none();
    proof {
        reveal_strlit("");
        assert(""@ =~= Seq::empty());
    }
    Turn {
        session: two_turn_session(session, "9999-frontier-acceptance-review", first),
        prompt: stage_prompt("", prompt.as_str(), StageProtocol::TerminalReview),
        activity: if first {
            "Frontier agent is reviewing whole-project acceptance".to_owned()
        } else {
            "Frontier agent is correcting the acceptance review".to_owned()
        },
        protocol: StageProtocol::TerminalReview,
    }
}

/// What an answer on the project leads to.
pub enum ReviewAnswer {
    /// The review is over, and the repository is put back.
    Over(AgentError),
    /// The result itself is not acceptable.
    Rejected(Failure),
    /// The repository has to be unchanged.
    HoldUnchanged,
    /// The repository has to show the remediation.
    HoldRemediation,
}

pub const READY_INVALID: &'static str = "READY is not valid after a failed terminal attempt; insert bounded remediation slices";

pub fn review_answered(outcome: Result<StageResult, AgentError>, after_failure: bool) -> (r: ReviewAnswer)
    ensures
        r is HoldUnchanged <==> !after_failure && (answer(outcome) matches Ok(a) && a.signal
            == StageSignal::Ready),
        r is HoldRemediation <==> (answer(outcome) matches Ok(a) && a.signal
            == StageSignal::Replanned),
        r is Over <==> answer(outcome) is Err || (answer(outcome) matches Ok(a) && a.signal
            == StageSignal::Blocked),
        match answer(outcome) {
            Ok(result) => match result.signal {
                StageSignal::Blocked => r matches ReviewAnswer::Over(e) && e@ == ErrorView::Other(
                    blocked_message("frontier acceptance review"@, result.text),
                ),
                StageSignal::Ready => if after_failure {
                    r matches ReviewAnswer::Rejected(e) && e.message@ == READY_INVALID@
                } else {
                    r is HoldUnchanged
                },
                StageSignal::Replanned => r is HoldRemediation,
                other => r matches ReviewAnswer::Rejected(e) && e.message@ == unexpected_message(
                    "frontier acceptance review"@,
                    other,
                ),
            },
            Err(e) => r matches ReviewAnswer::Over(error) && error@ == in_context(
                e,
                REVIEW_FAILED@,
            ),
        },
{
    match outcome {
        Ok(result) => match result.signal {
            StageSignal::Blocked => ReviewAnswer::Over(
                AgentError::Other {
                    message: blocked("frontier acceptance review", result.text.as_str()),
                },
            ),
            StageSignal::Ready => {
                if after_failure {
                    ReviewAnswer::Rejected(Failure::new(READY_INVALID.to_owned()))
                } else {
                    ReviewAnswer::HoldUnchanged
                }
            },
            StageSignal::Replanned => ReviewAnswer::HoldRemediation,
            other => ReviewAnswer::Rejected(
                Failure::new(unexpected("frontier acceptance review", other)),
            ),
        },
        Err(e) => ReviewAnswer::Over(with_context(e, REVIEW_FAILED)),
    }
}

/// What the facts say of a review that found the project ready: nothing has changed.
pub open spec fn ready_finding(e: Evidence, baseline_head: Seq<char>) -> FindingView {
    match e.head {
        None => FindingView::Ask(Question::Head),
        Some(head) => if text_option(head) != Some(baseline_head) {
            FindingView::Rejected("frontier returned READY after changing Git history"@)
        } else {
            match e.preserved {
                None => FindingView::Ask(Question::Preserved),
                Some(false) => FindingView::Rejected(
                    "frontier returned READY after changing repository state"@,
                ),
                Some(true) => match e.changes_unchanged {
                    None => FindingView::Ask(Question::Changes),
                    Some(false) => FindingView::Rejected(
                        "frontier returned READY after changing OpenSpec state"@,
                    ),
                    Some(true) => match e.terminal_unchanged {
                        None => FindingView::Ask(Question::Terminal),
                        Some(false) => FindingView::Rejected(
                            "frontier returned READY after changing the terminal acceptance slice"@,
                        ),
                        Some(true) => FindingView::Unchanged,
                    },
                },
            }
        },
    }
}

/// Holds a review that found the project ready against the repository.
pub fn terminal_review_ready_postcondition(e: &Evidence, baseline_head: &str) -> (r: Finding)
    ensures
        r@ == ready_finding(*e, baseline_head@),
{
    let same = match &e.head {
        None => {
            return Finding::Ask(Question::Head);
        },
        Some(Some(head)) => equal(head.as_str(), baseline_head),
        Some(None) => false,
    };
    if !same {
        return Finding::Rejected(
            Failure::new("frontier returned READY after changing Git history".to_owned()),
        );
    }
    match e.preserved {
        None => {
            return Finding::Ask(Question::Preserved);
        },
        Some(false) => {
            return Finding::Rejected(
                Failure::new("frontier returned READY after changing repository state".to_owned()),
            );
        },
        Some(true) => {},
    }
    match e.changes_unchanged {
        None => {
            return Finding::Ask(Question::Changes);
        },
        Some(false) => {
            return Finding::Rejected(
                Failure::new("frontier returned READY after changing OpenSpec state".to_owned()),
            );
        },
        Some(true) => {},
    }
    match e.terminal_unchanged {
        None => Finding::Ask(Question::Terminal),
        Some(false) => Finding::Rejected(
            Failure::new(
                "frontier returned READY after changing the terminal acceptance slice".to_owned(),
            ),
        ),
        Some(true) => Finding::Unchanged,
    }
}

/// The headings that a slice has to have.
pub open spec fn required_headings() -> Seq<Seq<char>> {
    seq![
        "# "@,
        "## Objective"@,
        "## Prerequisites"@,
        "## Acceptance Criteria"@,
        "## Required Tests"@,
    ]
}

/// Whether a line starts with the heading.
pub open spec fn headed(lines: Seq<Seq<char>>, heading: Seq<char>) -> bool {
    exists|i: int| 0 <= i < lines.len() && starts(#[trigger] lines[i], heading)
}

fn has_heading(all: &Vec<String>, heading: &str) -> (r: bool)
    ensures
        r == headed(texts(all@), heading@),
{
    let mut i: usize = 0;
    while i < all.len()
        invariant
            i <= all@.len(),
            forall|k: int| 0 <= k < i ==> !starts(#[trigger] texts(all@)[k], heading@),
        decreases all@.len() - i,
    {
        if starts_with(all[i].as_str(), heading) {
            assert(starts(texts(all@)[i as int], heading@));
            return true;
        }
        i += 1;
    }
    false
}

/// The first required heading from `from` on that a slice lacks.
pub open spec fn first_missing(lines: Seq<Seq<char>>, from: int) -> Option<Seq<char>>
    decreases required_headings().len() - from,
{
    if from < 0 || from >= required_headings().len() {
        None
    } else if !headed(lines, required_headings()[from]) {
        Some(required_headings()[from])
    } else {
        first_missing(lines, from + 1)
    }
}

/// What is wrong with a remediation slice, if anything.
pub open spec fn remediation_fault(a: AssignmentView, committed: Seq<Seq<char>>) -> Option<Seq<char>> {
    if terminal(a) {
        Some("frontier remediation inserted no executable slice before 9999"@)
    } else if !committed.contains(a.path) {
        Some(
            "frontier remediation did not commit the newly selected slice `"@ + a.path + "`"@,
        )
    } else {
        match first_missing(lines_of(a.content), 0) {
            Some(heading) => Some(
                "frontier remediation slice `"@ + a.path + "` omitted required heading `"@ + heading
                    + "`"@,
            ),
            None => None,
        }
    }
}

/// Checks a remediation slice: it is not the terminal slice, it was committed, and it has every
/// required heading.
pub fn validate_terminal_remediation_assignment(
    remediation: &AgendaAssignment,
    committed: &Vec<String>,
) -> (r: Result<(), Failure>)
    ensures
        match remediation_fault(remediation@, texts(committed@)) {
            Some(message) => failed(r, message),
            None => r is Ok,
        },
{
    if is_terminal_assignment(remediation) {
        return fail_with("frontier remediation inserted no executable slice before 9999");
    }
    if !holds(committed, remediation.path.as_str()) {
        return fail(
            cat3(
                "frontier remediation did not commit the newly selected slice `",
                remediation.path.as_str(),
                "`",
            ),
        );
    }
    let all = lines(remediation.content.as_str());
    let mut headings: Vec<&'static str> = Vec::new();
    headings.push("# ");
    headings.push("## Objective");
    headings.push("## Prerequisites");
    headings.push("## Acceptance Criteria");
    headings.push("## Required Tests");
    assert forall|k: int| 0 <= k < 5 implies (#[trigger] headings@[k])@ == required_headings()[k] by {}
    let mut i: usize = 0;
    while i < headings.len()
        invariant
            i <= headings@.len(),
            headings@.len() == 5,
            forall|k: int| 0 <= k < 5 ==> (#[trigger] headings@[k])@ == required_headings()[k],
            texts(all@) == lines_of(remediation@.content),
            !terminal(remediation@),
            texts(committed@).contains(remediation@.path),
            first_missing(lines_of(remediation@.content), 0) == first_missing(
                lines_of(remediation@.content),
                i as int,
            ),
        decreases headings@.len() - i,
    {
        let heading = headings[i];
        if !has_heading(&all, heading) {
            return fail(
                cat5(
                    "frontier remediation slice `",
                    remediation.path.as_str(),
                    "` omitted required heading `",
                    heading,
                    "`",
                ),
            );
        }
        i += 1;
    }
    Ok(())
}

/// What the facts say of a remediation: bounded slices put before the unchanged gate.
pub open spec fn remediation_finding(e: Evidence, baseline_head: Seq<char>) -> FindingView {
    match history_finding(
        e,
        baseline_head,
        "frontier remediation"@,
        "pre-9999"@,
        "pre-existing"@,
    ) {
        Some(finding) => finding,
        None => match e.terminal_unchanged {
            None => FindingView::Ask(Question::Terminal),
            Some(false) => FindingView::Rejected(
                "frontier remediation modified the terminal 9999 acceptance slice"@,
            ),
            Some(true) => match e.selection {
                None => FindingView::Ask(Question::Agenda),
                Some(Err(failure)) => FindingView::Rejected(failure.message@),
                Some(Ok(AgendaSelection::Next(a))) => match remediation_fault(
                    a@,
                    texts(e.committed->0@),
                ) {
                    Some(message) => FindingView::Rejected(message),
                    None => match e.readme {
                        None => FindingView::Ask(Question::Readme),
                        Some(false) => FindingView::Rejected(
                            "frontier remediation removed the agenda README"@,
                        ),
                        Some(true) => FindingView::Accepted(a@),
                    },
                },
                Some(Ok(_)) => FindingView::Rejected(
                    "frontier remediation left no next ordered agenda slice"@,
                ),
            },
        },
    }
}

/// Holds a remediation against the repository.
pub fn terminal_remediation_postcondition(e: &Evidence, baseline_head: &str) -> (r: Finding)
    ensures
        r@ == remediation_finding(*e, baseline_head@),
{
    if let Some(finding) = check_history(
        e,
        baseline_head,
        "frontier remediation",
        "pre-9999",
        "pre-existing",
    ) {
        return finding;
    }
    match e.terminal_unchanged {
        None => {
            return Finding::Ask(Question::Terminal);
        },
        Some(false) => {
            return Finding::Rejected(
                Failure::new(
                    "frontier remediation modified the terminal 9999 acceptance slice".to_owned(),
                ),
            );
        },
        Some(true) => {},
    }
    match &e.selection {
        None => Finding::Ask(Question::Agenda),
        Some(Err(failure)) => Finding::Rejected(Failure::new(failure.message.clone())),
        Some(Ok(AgendaSelection::Next(a))) => {
            let committed = e.committed.as_ref().unwrap();
            match validate_terminal_remediation_assignment(a, committed) {
                Err(failure) => Finding::Rejected(failure),
                Ok(()) => match e.readme {
                    None => Finding::Ask(Question::Readme),
                    Some(false) => Finding::Rejected(
                        Failure::new("frontier remediation removed the agenda README".to_owned()),
                    ),
                    Some(true) => Finding::Accepted(a.copy()),
                },
            }
        },
        Some(Ok(_)) => Finding::Rejected(
            Failure::new("frontier remediation left no next ordered agenda slice".to_owned()),
        ),
    }
}

/// A remediation is accepted only where the terminal slice is untouched and still to come: the
/// slice that is next is another one, committed, with every required heading.
pub proof fn law_accepted_remediation_comes_before_the_gate(
    e: Evidence,
    baseline_head: Seq<char>,
    a: AssignmentView,
)
    requires
        remediation_finding(e, baseline_head) == FindingView::Accepted(a),
    ensures
        !terminal(a),
        e.terminal_unchanged == Some(true),
        e.preserved == Some(true),
        e.changes_unchanged == Some(true),
        e.committed matches Some(paths) && texts(paths@).contains(a.path) && outside_agenda(
            texts(paths@),
        ).len() == 0,
        first_missing(lines_of(a.content), 0) is None,
{
}

/// Records that the project was found ready.
pub fn review_confirmed(state: &mut RunState) -> (r: Vec<Effect>)
    ensures
        !crate::state::review_needed(final(state)@),
        final(state)@.stage == old(state)@.stage && final(state)@.agenda == old(state)@.agenda,
        final(state)@ == (RunStateView {
            terminal_review_complete: true,
            too_large: None,
            ..old(state)@
        }),
        seen_all(r@) == seq![
            EffectView::Persist,
            EffectView::Success(
                "Frontier review confirmed readiness for whole-project acceptance"@,
            ),
        ],
{
    state.terminal_review_complete = true;
    state.too_large = None;
    effects2(
        Effect::Persist,
        Effect::Success(
            "Frontier review confirmed readiness for whole-project acceptance".to_owned(),
        ),
    )
}

/// The state once remediation slices are put before the terminal slice: the first of them is
/// planned from the start.
pub open spec fn remediated(s: RunStateView, a: AssignmentView, before: Seq<(Seq<char>, Seq<char>)>) -> RunStateView {
    RunStateView {
        terminal_remediations: (s.terminal_remediations + 1) as u32,
        terminal_review_complete: false,
        too_large: None,
        change: Some(a.change),
        agenda: Some(a),
        stage: Stage::Propose,
        planning_session: None,
        planning_backend: None,
        verify_retries: 0,
        pending_repair: None,
        proposal_head: None,
        final_head: None,
        frontier_replans: 0,
        before_changes: before,
        slice_baseline: None,
        ..s
    }
}

/// What accepted remediation asks for: the state that was reviewed let go, a new one
/// recorded and written, and the change that is now in work shown.
pub open spec fn remediation_effects(a: AssignmentView, superseded: BaselineView) -> Seq<
    EffectView,
> {
    seq![
        EffectView::ReleaseBaseline(superseded, Superseding::Remediation),
        EffectView::ArmBaseline,
        EffectView::Persist,
        EffectView::ChangeName(Some(a.change)),
        EffectView::Success(
            "Frontier inserted acceptance remediation `"@ + a.change
                + "` before the unchanged 9999 gate"@,
        ),
    ]
}

/// Takes remediation over. `baseline` is the state that was reviewed.
pub fn remediation_accepted(
    state: &mut RunState,
    remediation: AgendaAssignment,
    before_changes: ChangeSnapshot,
    baseline: SliceBaseline,
) -> (r: Vec<Effect>)
    requires
        old(state).terminal_remediations < MAX_TERMINAL_REMEDIATIONS,
    ensures
        final(state)@ == remediated(old(state)@, remediation@, before_changes@),
        seen_all(r@) == remediation_effects(remediation@, baseline@),
{
    let praise = cat3(
        "Frontier inserted acceptance remediation `",
        remediation.change.as_str(),
        "` before the unchanged 9999 gate",
    );
    let shown = Effect::ChangeName(Some(remediation.change.clone()));
    state.terminal_remediations = state.terminal_remediations + 1;
    state.terminal_review_complete = false;
    state.too_large = None;
    state.change = Some(remediation.change.clone());
    state.agenda = Some(remediation);
    state.stage = Stage::Propose;
    state.planning_session = None;
    state.planning_backend = None;
    state.verify_retries = 0;
    state.pending_repair = None;
    state.proposal_head = None;
    state.final_head = None;
    state.frontier_replans = 0;
    state.before_changes = before_changes;
    state.slice_baseline = None;
    effects5(
        Effect::ReleaseBaseline(baseline, Superseding::Remediation),
        Effect::ArmBaseline,
        Effect::Persist,
        shown,
        Effect::Success(praise),
    )
}

/// Remediation happens at most the permitted number of times: a review is begun only
/// below the limit, and each accepted remediation is counted. After it the terminal slice has to
/// be reviewed again before it is proposed.
pub proof fn law_remediations_are_bounded(
    s: RunStateView,
    a: AssignmentView,
    before: Seq<(Seq<char>, Seq<char>)>,
)
    requires
        s.terminal_remediations < MAX_TERMINAL_REMEDIATIONS,
    ensures
        remediated(s, a, before).terminal_remediations == s.terminal_remediations + 1,
        remediated(s, a, before).terminal_remediations <= MAX_TERMINAL_REMEDIATIONS,
        !remediated(s, a, before).terminal_review_complete,
{
}

/// Decides on a rejected review. The repository is put back either way.
pub fn review_rejected(first: bool, failure: &Failure) -> (r: Rejection)
    ensures
        r is Retry <==> first,
        if first {
            r matches Rejection::Retry(effect) && effect@ == EffectView::Warn(
                "Frontier acceptance review failed its repository contract: "@ + failure.message@,
            )
        } else {
            r matches Rejection::Over(e) && e.message@ == REVIEW_REJECTED_TWICE@ + ": "@
                + failure.message@
        },
{
    if first {
        Rejection::Retry(
            Effect::Warn(
                cat2(
                    "Frontier acceptance review failed its repository contract: ",
                    failure.message.as_str(),
                ),
            ),
        )
    } else {
        Rejection::Over(
            Failure::new(cat3(REVIEW_REJECTED_TWICE, ": ", failure.message.as_str())),
        )
    }
}

// What the frontier model may do

/// What was done about an error is said in front of it, and the error stays of its kind.
pub proof fn law_context_keeps_the_error(e: ErrorView, context: Seq<char>)
    ensures
        in_context(e, context) is Pause <==> e is Pause,
        in_context(e, context) is Escalation <==> e is Escalation,
        in_context(e, context) is MissingTerminal <==> e is MissingTerminal,
        !(e is Pause) ==> context.is_prefix_of(
            crate::stages::error_text(in_context(e, context)),
        ) && crate::stages::error_text(e).is_suffix_of(
            crate::stages::error_text(in_context(e, context)),
        ),
{
    if !(e is Pause) {
        let m = crate::stages::error_text(in_context(e, context));
        let t = crate::stages::error_text(e);
        assert(m == context + ": "@ + t);
        assert(m.subrange(0, context.len() as int) =~= context);
        assert(m.subrange(m.len() - t.len(), m.len() as int) =~= t);
    }
}

/// Only paths below the directory of the agenda belong to it.
pub proof fn law_the_agenda_is_its_directory(paths: Seq<Seq<char>>)
    ensures
        outside_agenda(paths).len() == 0 <==> forall|i: int|
            0 <= i < paths.len() ==> starts(#[trigger] paths[i], "automation/slices/"@),
{
    let wanted = |path: Seq<char>| !starts(path, AGENDA_PREFIX@);
    let out = paths.filter(wanted);
    if out.len() == 0 {
        assert forall|i: int| 0 <= i < paths.len() implies starts(
            #[trigger] paths[i],
            "automation/slices/"@,
        ) by {
            crate::agenda::lemma_filter_member(paths, wanted, paths[i]);
            assert(!out.contains(paths[i]));
        }
    } else {
        assert(out.contains(out[0]));
        crate::agenda::lemma_filter_member(paths, wanted, out[0]);
        let i = choose|i: int| 0 <= i < paths.len() && paths[i] == out[0];
        assert(!starts(paths[i], "automation/slices/"@));
    }
}

/// Whether everything that history can say speaks for a commit on the agenda alone, on top
/// of the baseline.
pub open spec fn clean_history(e: Evidence, baseline_head: Seq<char>) -> bool {
    &&& e.head matches Some(Some(head)) && head@ != baseline_head
    &&& e.descends == Some(true)
    &&& e.committed matches Some(paths) && paths@.len() > 0 && forall|i: int|
        0 <= i < paths@.len() ==> starts((#[trigger] paths@[i])@, "automation/slices/"@)
    &&& e.preserved == Some(true)
    &&& e.changes_unchanged == Some(true)
}

proof fn lemma_clean(
    e: Evidence,
    baseline_head: Seq<char>,
    who: Seq<char>,
    history: Seq<char>,
    preserved: Seq<char>,
)
    ensures
        history_finding(e, baseline_head, who, history, preserved) is None <==> clean_history(
            e,
            baseline_head,
        ),
        history_finding(e, baseline_head, who, history, preserved) matches Some(f) ==> f is Ask || f
            is Rejected,
{
    if e.committed is Some {
        let paths = texts(e.committed->0@);
        law_the_agenda_is_its_directory(paths);
        if forall|i: int| 0 <= i < paths.len() ==> starts(#[trigger] paths[i], "automation/slices/"@) {
            assert forall|i: int| 0 <= i < e.committed->0@.len() implies starts(
                (#[trigger] e.committed->0@[i])@,
                "automation/slices/"@,
            ) by {
                assert(starts(paths[i], "automation/slices/"@));
            }
        }
        if forall|i: int|
            0 <= i < e.committed->0@.len() ==> starts(
                (#[trigger] e.committed->0@[i])@,
                "automation/slices/"@,
            ) {
            assert forall|i: int| 0 <= i < paths.len() implies starts(
                #[trigger] paths[i],
                "automation/slices/"@,
            ) by {
                assert(paths[i] == e.committed->0@[i]@);
            }
        }
    }
}

/// A division is accepted exactly where its history is clean and the agenda offers the same
/// slice for the same change, with other content and at least one child. It is that slice
/// that is taken over.
pub proof fn law_divisions_are_accepted_on_their_evidence(
    e: Evidence,
    baseline_head: Seq<char>,
    original: AssignmentView,
)
    ensures
        ({
            let r = replan_finding(e, baseline_head, original);
            let offered = e.selection matches Some(Ok(AgendaSelection::Next(a))) && a@.path
                == original.path && a@.change == original.change && a@.content != original.content;
            &&& r is Accepted <==> clean_history(e, baseline_head) && offered && e.subdivided
                == Some(true)
            &&& r matches FindingView::Accepted(a) ==> e.selection->0->Ok_0->Next_0@ == a
            &&& !(r is Unchanged)
        }),
{
    lemma_clean(
        e,
        baseline_head,
        "frontier replan"@,
        "the pre-Propose"@,
        "the pre-existing"@,
    );
}

/// A project is found ready exactly where nothing at all has changed.
pub proof fn law_ready_projects_are_untouched(e: Evidence, baseline_head: Seq<char>)
    ensures
        ready_finding(e, baseline_head) is Unchanged <==> (e.head matches Some(Some(head)) && head@
            == baseline_head) && e.preserved == Some(true) && e.changes_unchanged == Some(true)
            && e.terminal_unchanged == Some(true),
        !(ready_finding(e, baseline_head) is Accepted),
{
}

/// A slice has what it needs exactly where it has a title and its four sections.
pub proof fn law_slices_have_their_sections(lines: Seq<Seq<char>>)
    ensures
        first_missing(lines, 0) is None <==> headed(lines, "# "@) && headed(lines, "## Objective"@)
            && headed(lines, "## Prerequisites"@) && headed(lines, "## Acceptance Criteria"@)
            && headed(lines, "## Required Tests"@),
{
    reveal_with_fuel(first_missing, 7);
}

/// A remediation is accepted exactly where its history is clean, the terminal slice is as it
/// was, and the slice that comes next is another one that was committed with everything that
/// a slice needs, while the index of the agenda is still there.
pub proof fn law_remediations_are_accepted_on_their_evidence(e: Evidence, baseline_head: Seq<char>)
    ensures
        ({
            let r = remediation_finding(e, baseline_head);
            let next = e.selection matches Some(Ok(AgendaSelection::Next(a))) && a@.path
                != "automation/slices/9999-project-acceptance.md"@ && texts(
                e.committed->0@,
            ).contains(a@.path) && first_missing(lines_of(a@.content), 0) is None;
            &&& r is Accepted <==> clean_history(e, baseline_head) && e.terminal_unchanged
                == Some(true) && next && e.readme == Some(true)
            &&& r matches FindingView::Accepted(a) ==> e.selection->0->Ok_0->Next_0@ == a
            &&& !(r is Unchanged)
        }),
{
    lemma_clean(
        e,
        baseline_head,
        "frontier remediation"@,
        "pre-9999"@,
        "pre-existing"@,
    );
}

/// A divided slice, and the first slice of a remediation, are planned again from nothing:
/// with the change that the slice names, and no report, session, finding or commit of the
/// attempt before. A remediation may be divided as often as any slice.
pub proof fn law_new_slices_are_planned_from_nothing(
    s: RunStateView,
    a: AssignmentView,
    before: Seq<(Seq<char>, Seq<char>)>,
)
    requires
        s.frontier_replans < 3,
        s.terminal_remediations < 3,
    ensures
        planned_anew(replanned(s, a, before), a, before),
        planned_anew(remediated(s, a, before), a, before),
        remediated(s, a, before).frontier_replans == 0,
        remediated(s, a, before).slice_baseline is None,
        replanned(s, a, before).slice_baseline == s.slice_baseline,
        replanned(s, a, before).terminal_remediations == s.terminal_remediations,
        kept_on(replanned(s, a, before), s),
        kept_on(remediated(s, a, before), s),
{
}

/// Whether a state begins a slice from nothing.
pub open spec fn planned_anew(
    t: RunStateView,
    a: AssignmentView,
    before: Seq<(Seq<char>, Seq<char>)>,
) -> bool {
    &&& t.stage == Stage::Propose
    &&& t.agenda == Some(a) && t.change == Some(a.change)
    &&& t.before_changes == before
    &&& t.too_large is None && t.planning_session is None && t.planning_backend is None
    &&& t.verify_retries == 0 && t.pending_repair is None
    &&& t.proposal_head is None && t.final_head is None
}

/// Whether a run is still the same run: its request, campaign, direction and confinement.
pub open spec fn kept_on(t: RunStateView, s: RunStateView) -> bool {
    &&& t.request == s.request && t.campaign == s.campaign
    &&& t.pending_direction == s.pending_direction
    &&& t.bootstrap == s.bootstrap && t.local_only == s.local_only
    &&& t.product_repo == s.product_repo && t.sidecar_store == s.sidecar_store
    &&& t.schema_version == s.schema_version
}

/// Nothing is let go before something to come back to is recorded and written, where a slice
/// is divided; and what is let go is the state that the slice was divided from. The same is
/// let go where remediation is taken over, and a new state recorded and written.
pub proof fn law_superseded_states_are_let_go(a: AssignmentView, superseded: BaselineView)
    ensures
        ({
            let r = replan_effects(a, superseded);
            &&& r[0] == EffectView::ArmBaseline && r[1] == EffectView::Persist
            &&& r[2] == EffectView::ReleaseBaseline(superseded, Superseding::Division)
            &&& r.len() == 4
        }),
        ({
            let r = remediation_effects(a, superseded);
            &&& r[0] == EffectView::ReleaseBaseline(superseded, Superseding::Remediation)
            &&& r[1] == EffectView::ArmBaseline && r[2] == EffectView::Persist
            &&& r[3] == EffectView::ChangeName(Some(a.change))
            &&& r.len() == 5
        }),
{
}

/// The two turns of the frontier model are one conversation, and the second is told
/// everything that the first was told and why it was rejected.
pub proof fn law_second_turns_are_told_why(
    a: AssignmentView,
    o: TooLargeView,
    escalation: Option<TooLargeView>,
    f: Seq<char>,
    h: HarnessView,
    id: Seq<char>,
    name: Seq<char>,
)
    ensures
        two_turns(id, name, true).id() == id && two_turns(id, name, false).id() == id,
        two_turns(id, name, true) is New && two_turns(id, name, false) is Resume,
        replan_prompt(a, o, None, h).is_prefix_of(replan_prompt(a, o, Some(f), h)),
        exists|i: int| crate::text::occurs_at(replan_prompt(a, o, Some(f), h), f, i),
        review_prompt(a, escalation, None, h).is_prefix_of(
            review_prompt(a, escalation, Some(f), h),
        ),
        exists|i: int| crate::text::occurs_at(review_prompt(a, escalation, Some(f), h), f, i),
{
    let p = replan_prompt(a, o, None, h);
    let q = replan_prompt(a, o, Some(f), h);
    assert(q.subrange(0, p.len() as int) =~= p);
    let lead = "\n\nPOSTCONDITION REPAIR: The preceding frontier attempt was rejected: "@;
    let at = p.len() + lead.len() as int;
    assert(q.subrange(at, at + f.len()) =~= f);
    assert(crate::text::occurs_at(q, f, at));
    let u = review_prompt(a, escalation, None, h);
    let v = review_prompt(a, escalation, Some(f), h);
    assert(v.subrange(0, u.len() as int) =~= u);
    let lead2 = "\n\nPOSTCONDITION REPAIR: The preceding frontier response was rejected: "@;
    let at2 = u.len() + lead2.len() as int;
    assert(v.subrange(at2, at2 + f.len()) =~= f);
    assert(crate::text::occurs_at(v, f, at2));
}

/// An attempt that was given up is told of: what it was, where its diagnostic is, and where
/// its commits are, if it made any.
pub proof fn law_abandoned_attempts_are_told_of(
    what: Seq<char>,
    stage: Stage,
    head: Seq<char>,
    report: RollbackReport,
)
    ensures
        ({
            let r = abandonment(what, stage, head, report);
            &&& r[0] matches EffectView::Warn(t) && ("Abandoned the "@ + what + " "@
                + stage.name()).is_prefix_of(t) && short(head).is_suffix_of(t)
            &&& r[1] == EffectView::Info(
                "Failed-attempt diagnostic retained at `"@ + report.diagnostic_path@ + "`"@,
            )
            &&& report.recovery_ref is None ==> r.len() == 2
            &&& report.recovery_ref matches Some(reference) ==> r.len() == 3 && r[2]
                == EffectView::Info("Failed-attempt commits retained at `"@ + reference@ + "`"@)
        }),
{
    let a = "Abandoned the "@ + what + " "@ + stage.name();
    let t = a + " attempt and restored pre-Propose HEAD "@ + short(head);
    assert(t.subrange(0, a.len() as int) =~= a);
    assert(t.subrange(t.len() - short(head).len(), t.len() as int) =~= short(head));
}

} // verus!
