//! The stages of a workflow and the order in which they follow each other.
use crate::failure::{fail, failed, Failure};
use crate::text::cat2;
use vstd::prelude::*;
use vstd::string::*;

verus! {

pub const TOTAL_STAGES: usize = 7;

pub const AGENDA_TOTAL_STAGES: usize = 6;

/// A stage of a workflow.
#[derive(Debug, Clone, Copy, PartialEq, Eq, Structural)]
pub enum Stage {
    Explore,
    Propose,
    ProposalCommit,
    Apply,
    Verify,
    Repair,
    Archive,
    FinalCommit,
    Complete,
    Done,
}

impl Stage {
    pub open spec fn name(self) -> Seq<char> {
        match self {
            Stage::Explore => "Explore"@,
            Stage::Propose => "Propose"@,
            Stage::ProposalCommit => "Proposal commit"@,
            Stage::Apply => "Apply"@,
            Stage::Verify => "Verify"@,
            Stage::Repair => "Repair"@,
            Stage::Archive => "Archive"@,
            Stage::FinalCommit => "Completion commit"@,
            Stage::Complete => "Complete"@,
            Stage::Done => "Done"@,
        }
    }

    /// What the stage is called.
    pub fn title(self) -> (r: &'static str)
        ensures
            r@ == self.name(),
    {
        match self {
            Stage::Explore => "Explore",
            Stage::Propose => "Propose",
            Stage::ProposalCommit => "Proposal commit",
            Stage::Apply => "Apply",
            Stage::Verify => "Verify",
            Stage::Repair => "Repair",
            Stage::Archive => "Archive",
            Stage::FinalCommit => "Completion commit",
            Stage::Complete => "Complete",
            Stage::Done => "Done",
        }
    }

    pub open spec fn position(self) -> int {
        match self {
            Stage::Explore => 1,
            Stage::Propose => 2,
            Stage::ProposalCommit => 3,
            Stage::Apply => 4,
            Stage::Verify => 5,
            Stage::Repair => 5,
            Stage::Archive => 6,
            Stage::FinalCommit => 7,
            Stage::Complete => 7,
            Stage::Done => 7,
        }
    }

    /// The stage's place among all stages, counted from one.
    pub fn number(self) -> (r: usize)
        ensures
            r == self.position(),
            1 <= r <= TOTAL_STAGES,
    {
        match self {
            Stage::Explore => 1,
            Stage::Propose => 2,
            Stage::ProposalCommit => 3,
            Stage::Apply => 4,
            Stage::Verify => 5,
            Stage::Repair => 5,
            Stage::Archive => 6,
            Stage::FinalCommit => 7,
            Stage::Complete => 7,
            Stage::Done => 7,
        }
    }

    /// The stage that follows one that reported ready.
    pub open spec fn successor(self) -> Option<Stage> {
        match self {
            Stage::Explore => Some(Stage::Propose),
            Stage::Propose => Some(Stage::ProposalCommit),
            Stage::ProposalCommit => Some(Stage::Apply),
            Stage::Apply => Some(Stage::Verify),
            Stage::Repair => Some(Stage::Verify),
            Stage::Archive => Some(Stage::FinalCommit),
            Stage::FinalCommit => Some(Stage::Complete),
            _ => None,
        }
    }

    pub fn after_ready(self) -> (r: Result<Stage, Failure>)
        ensures
            match self.successor() {
                Some(next) => r == Ok::<Stage, Failure>(next),
                None => failed(r, self.name() + " cannot follow a READY result"@),
            },
    {
        match self {
            Stage::Explore => Ok(Stage::Propose),
            Stage::Propose => Ok(Stage::ProposalCommit),
            Stage::ProposalCommit => Ok(Stage::Apply),
            Stage::Apply => Ok(Stage::Verify),
            Stage::Repair => Ok(Stage::Verify),
            Stage::Archive => Ok(Stage::FinalCommit),
            Stage::FinalCommit => Ok(Stage::Complete),
            _ => fail(cat2(self.title(), " cannot follow a READY result")),
        }
    }

    pub fn after_verified(self) -> (r: Result<Stage, Failure>)
        ensures
            if self == Stage::Verify {
                r == Ok::<Stage, Failure>(Stage::Archive)
            } else {
                failed(r, self.name() + " cannot follow a VERIFIED result"@)
            },
    {
        match self {
            Stage::Verify => Ok(Stage::Archive),
            _ => fail(cat2(self.title(), " cannot follow a VERIFIED result")),
        }
    }
}

/// The stage after Propose. Without milestone commits it is Apply.
pub open spec fn follows_propose(yolo: bool) -> Stage {
    if yolo {
        Stage::Apply
    } else {
        Stage::ProposalCommit
    }
}

pub fn stage_after_propose(yolo: bool) -> (r: Stage)
    ensures
        r == follows_propose(yolo),
{
    if yolo {
        Stage::Apply
    } else {
        Stage::ProposalCommit
    }
}

/// Where a stage is shown to stand, and among how many. An agenda leaves Explore out,
/// except where the frontier model carries the work; without milestone commits the
/// proposal commit is left out too.
pub open spec fn shown_position(
    stage: Stage,
    has_agenda: bool,
    terminal_frontier: bool,
    yolo: bool,
) -> (int, int) {
    let without_explore = has_agenda && !terminal_frontier;
    let past_commit = stage.position() > Stage::ProposalCommit.position();
    (
        stage.position() - (if without_explore { 1int } else { 0 }) - (if yolo && past_commit {
            1int
        } else {
            0
        }),
        TOTAL_STAGES - (if without_explore { 1int } else { 0 }) - (if yolo { 1int } else { 0 }),
    )
}

pub fn displayed_stage_position(
    stage: Stage,
    has_agenda: bool,
    terminal_frontier: bool,
    yolo: bool,
) -> (r: (usize, usize))
    ensures
        (r.0 as int, r.1 as int) == shown_position(stage, has_agenda, terminal_frontier, yolo),
{
    let mut number: usize = stage.number();
    let mut total: usize = TOTAL_STAGES;
    if !terminal_frontier && has_agenda {
        number = stage.number() - 1;
        total = AGENDA_TOTAL_STAGES;
    }
    if yolo {
        total -= 1;
        if stage.number() > Stage::ProposalCommit.number() {
            number -= 1;
        }
    }
    (number, total)
}

/// The shown place of a stage never exceeds the shown number of stages, except that
/// the stage left out without milestone commits has no place of its own.
pub proof fn law_position_within_total(
    stage: Stage,
    has_agenda: bool,
    terminal_frontier: bool,
    yolo: bool,
)
    ensures
        0 <= shown_position(stage, has_agenda, terminal_frontier, yolo).0
            <= shown_position(stage, has_agenda, terminal_frontier, yolo).1,
{
}

/// From every stage that reports ready a workflow moves on; it never falls back to a
/// stage with a smaller place.
pub proof fn law_ready_moves_on(stage: Stage)
    ensures
        stage.successor() matches Some(next) ==> next.position() >= stage.position() && next != stage,
{
}

/// Whether the frontier model carries a stage.
pub open spec fn on_frontier(stage: Stage, bootstrap: bool, terminal_frontier: bool) -> bool {
    bootstrap || (terminal_frontier && (stage == Stage::Propose || stage == Stage::Apply || stage
        == Stage::Verify || stage == Stage::Repair))
}

pub fn stage_uses_frontier_model(stage: Stage, bootstrap: bool, terminal_frontier: bool) -> (r: bool)
    ensures
        r == on_frontier(stage, bootstrap, terminal_frontier),
{
    bootstrap || (terminal_frontier && matches!(
        stage,
        Stage::Propose | Stage::Apply | Stage::Verify | Stage::Repair
    ))
}

/// The course of a workflow whose stages all report ready and whose verification passes:
/// the proposal is committed before it is applied, a repair is verified again, and a
/// verification is left by its own result alone.
pub proof fn law_stages_follow_their_course(stage: Stage)
    ensures
        stage.successor() == Some(Stage::Propose) <==> stage == Stage::Explore,
        stage.successor() == Some(Stage::ProposalCommit) <==> stage == Stage::Propose,
        stage.successor() == Some(Stage::Apply) <==> stage == Stage::ProposalCommit,
        stage.successor() == Some(Stage::Verify) <==> stage == Stage::Apply || stage
            == Stage::Repair,
        stage.successor() == Some(Stage::FinalCommit) <==> stage == Stage::Archive,
        stage.successor() == Some(Stage::Complete) <==> stage == Stage::FinalCommit,
        stage.successor() is None <==> stage == Stage::Verify || stage == Stage::Complete || stage
            == Stage::Done,
{
}

/// The places that are shown. Without an agenda they are the seven stages in their order,
/// the repair at the place of the verification that it belongs to; leaving a stage out
/// moves the later ones up by one.
pub proof fn law_shown_places(stage: Stage, next: Stage, has_agenda: bool, terminal_frontier: bool, yolo: bool)
    ensures
        shown_position(Stage::Explore, false, terminal_frontier, false) == (1int, 7int),
        shown_position(stage, true, true, yolo) == shown_position(stage, false, true, yolo),
        shown_position(stage, true, false, yolo).0 == shown_position(stage, false, false, yolo).0
            - 1,
        shown_position(stage, true, false, yolo).1 == shown_position(stage, false, false, yolo).1
            - 1,
        shown_position(stage, has_agenda, terminal_frontier, true).1 == shown_position(
            stage,
            has_agenda,
            terminal_frontier,
            false,
        ).1 - 1,
        stage.successor() == Some(next) && stage != Stage::Repair && stage != Stage::FinalCommit
            ==> shown_position(next, has_agenda, terminal_frontier, false).0 == shown_position(
            stage,
            has_agenda,
            terminal_frontier,
            false,
        ).0 + 1,
        shown_position(Stage::Repair, has_agenda, terminal_frontier, yolo) == shown_position(
            Stage::Verify,
            has_agenda,
            terminal_frontier,
            yolo,
        ),
        shown_position(Stage::Archive, has_agenda, terminal_frontier, yolo).0 == shown_position(
            Stage::Verify,
            has_agenda,
            terminal_frontier,
            yolo,
        ).0 + 1,
        ({
            let late = stage != Stage::Explore && stage != Stage::Propose && stage
                != Stage::ProposalCommit;
            shown_position(stage, has_agenda, terminal_frontier, true).0 == shown_position(
                stage,
                has_agenda,
                terminal_frontier,
                false,
            ).0 - (if late {
                1int
            } else {
                0int
            })
        }),
        stage == Stage::FinalCommit || stage == Stage::Complete || stage == Stage::Done
            ==> shown_position(stage, has_agenda, terminal_frontier, yolo).0 == shown_position(
            stage,
            has_agenda,
            terminal_frontier,
            yolo,
        ).1,
{
}

/// A bootstrap is the frontier model's throughout. Elsewhere the frontier model carries
/// only the terminal slice, and of it only what is planned, written and judged: never the
/// exploration, a commit or the archive.
pub proof fn law_the_frontier_model_does_not_commit(stage: Stage, terminal_frontier: bool)
    ensures
        on_frontier(stage, true, terminal_frontier),
        !on_frontier(stage, false, false),
        stage == Stage::Explore || stage == Stage::ProposalCommit || stage == Stage::Archive
            || stage == Stage::FinalCommit ==> !on_frontier(stage, false, terminal_frontier),
        stage == Stage::Propose || stage == Stage::Apply || stage == Stage::Verify || stage
            == Stage::Repair ==> on_frontier(stage, false, true),
{
}

} // verus!
