//! The checkpoint of a workflow: what a run knows, and what survives it.
use crate::agenda::{
    is_terminal_assignment, terminal, AgendaAssignment, AssignmentView, TERMINAL_PATH,
};
use crate::backend::SessionId;
use crate::git::{BaselineView, SliceBaseline};
use crate::openspec::ChangeSnapshot;
use crate::prompts::{BOOTSTRAP_CHANGE, BOOTSTRAP_PATH};
use crate::stage::Stage;
use crate::text::{cat3, seen, seen_all, text_option};
use vstd::prelude::*;
use vstd::string::*;

verus! {

pub const STATE_SCHEMA_VERSION: u32 = 5;

/// A worker's report that its work does not fit one change.
#[derive(Debug, Clone, PartialEq, Eq)]
pub struct TooLargeOutcome {
    pub stage: Stage,
    pub summary: String,
}

pub struct TooLargeView {
    pub stage: Stage,
    pub summary: Seq<char>,
}

impl View for TooLargeOutcome {
    type V = TooLargeView;

    open spec fn view(&self) -> TooLargeView {
        TooLargeView { stage: self.stage, summary: self.summary@ }
    }
}

impl TooLargeOutcome {
    pub fn copy(&self) -> (r: TooLargeOutcome)
        ensures
            r@ == self@,
    {
        TooLargeOutcome { stage: self.stage, summary: self.summary.clone() }
    }
}

/// A change that a campaign has completed.
#[derive(Debug, Clone, PartialEq, Eq)]
pub struct CompletedIteration {
    pub iteration: u32,
    pub change: String,
    pub proposal_head: Option<String>,
    pub final_head: Option<String>,
    pub elapsed_seconds: Option<u64>,
}

pub struct CompletedView {
    pub iteration: u32,
    pub change: Seq<char>,
    pub proposal_head: Option<Seq<char>>,
    pub final_head: Option<Seq<char>>,
    pub elapsed_seconds: Option<u64>,
}

impl View for CompletedIteration {
    type V = CompletedView;

    open spec fn view(&self) -> CompletedView {
        CompletedView {
            iteration: self.iteration,
            change: self.change@,
            proposal_head: text_option(self.proposal_head),
            final_head: text_option(self.final_head),
            elapsed_seconds: self.elapsed_seconds,
        }
    }
}

/// A series of workflows toward one objective.
#[derive(Debug, Clone, PartialEq, Eq)]
pub struct CampaignState {
    pub iteration: u32,
    pub max_iterations: Option<u32>,
    pub completed: Vec<CompletedIteration>,
}

pub struct CampaignView {
    pub iteration: u32,
    pub max_iterations: Option<u32>,
    pub completed: Seq<CompletedView>,
}

impl View for CampaignState {
    type V = CampaignView;

    open spec fn view(&self) -> CampaignView {
        CampaignView {
            iteration: self.iteration,
            max_iterations: self.max_iterations,
            completed: seen_all(self.completed@),
        }
    }
}

/// A campaign that has completed nothing yet.
pub open spec fn fresh_campaign(max_iterations: Option<u32>) -> CampaignView {
    CampaignView { iteration: 1, max_iterations, completed: Seq::empty() }
}

impl CampaignState {
    pub fn fresh(max_iterations: Option<u32>) -> (r: CampaignState)
        ensures
            r@ == fresh_campaign(max_iterations),
    {
        let r = CampaignState { iteration: 1, max_iterations, completed: Vec::new() };
        assert(r@.completed =~= Seq::empty());
        r
    }
}

/// The state of a run.
#[derive(Debug, Clone)]
pub struct RunState {
    pub schema_version: u32,
    pub request: String,
    pub change: Option<String>,
    pub stage: Stage,
    pub verify_retries: u32,
    pub before_changes: ChangeSnapshot,
    pub planning_session: Option<SessionId>,
    pub planning_backend: Option<String>,
    pub pending_repair: Option<String>,
    pub pending_direction: Option<String>,
    pub proposal_head: Option<String>,
    pub final_head: Option<String>,
    pub terminal_summary: Option<String>,
    pub too_large: Option<TooLargeOutcome>,
    pub campaign: Option<CampaignState>,
    pub agenda: Option<AgendaAssignment>,
    pub slice_baseline: Option<SliceBaseline>,
    pub frontier_replans: u32,
    pub terminal_review_complete: bool,
    pub terminal_remediations: u32,
    pub bootstrap: bool,
    pub product_repo: Option<String>,
    pub sidecar_store: Option<String>,
    pub planning_final_head: Option<String>,
    pub local_only: bool,
}

/// What a [`RunState`] holds.
pub struct RunStateView {
    pub schema_version: u32,
    pub request: Seq<char>,
    pub change: Option<Seq<char>>,
    pub stage: Stage,
    pub verify_retries: u32,
    pub before_changes: Seq<(Seq<char>, Seq<char>)>,
    pub planning_session: Option<Seq<char>>,
    pub planning_backend: Option<Seq<char>>,
    pub pending_repair: Option<Seq<char>>,
    pub pending_direction: Option<Seq<char>>,
    pub proposal_head: Option<Seq<char>>,
    pub final_head: Option<Seq<char>>,
    pub terminal_summary: Option<Seq<char>>,
    pub too_large: Option<TooLargeView>,
    pub campaign: Option<CampaignView>,
    pub agenda: Option<AssignmentView>,
    pub slice_baseline: Option<BaselineView>,
    pub frontier_replans: u32,
    pub terminal_review_complete: bool,
    pub terminal_remediations: u32,
    pub bootstrap: bool,
    pub product_repo: Option<Seq<char>>,
    pub sidecar_store: Option<Seq<char>>,
    pub planning_final_head: Option<Seq<char>>,
    pub local_only: bool,
}

impl View for RunState {
    type V = RunStateView;

    open spec fn view(&self) -> RunStateView {
        RunStateView {
            schema_version: self.schema_version,
            request: self.request@,
            change: text_option(self.change),
            stage: self.stage,
            verify_retries: self.verify_retries,
            before_changes: self.before_changes@,
            planning_session: seen(self.planning_session),
            planning_backend: text_option(self.planning_backend),
            pending_repair: text_option(self.pending_repair),
            pending_direction: text_option(self.pending_direction),
            proposal_head: text_option(self.proposal_head),
            final_head: text_option(self.final_head),
            terminal_summary: text_option(self.terminal_summary),
            too_large: seen(self.too_large),
            campaign: seen(self.campaign),
            agenda: seen(self.agenda),
            slice_baseline: seen(self.slice_baseline),
            frontier_replans: self.frontier_replans,
            terminal_review_complete: self.terminal_review_complete,
            terminal_remediations: self.terminal_remediations,
            bootstrap: self.bootstrap,
            product_repo: text_option(self.product_repo),
            sidecar_store: text_option(self.sidecar_store),
            planning_final_head: text_option(self.planning_final_head),
            local_only: self.local_only,
        }
    }
}

/// The state in which a request is begun.
pub open spec fn new_state(request: Seq<char>, before_changes: Seq<(Seq<char>, Seq<char>)>) -> RunStateView {
    RunStateView {
        schema_version: STATE_SCHEMA_VERSION,
        request,
        change: None,
        stage: Stage::Explore,
        verify_retries: 0,
        before_changes,
        planning_session: None,
        planning_backend: None,
        pending_repair: None,
        pending_direction: None,
        proposal_head: None,
        final_head: None,
        terminal_summary: None,
        too_large: None,
        campaign: None,
        agenda: None,
        slice_baseline: None,
        frontier_replans: 0,
        terminal_review_complete: false,
        terminal_remediations: 0,
        bootstrap: false,
        product_repo: None,
        sidecar_store: None,
        planning_final_head: None,
        local_only: false,
    }
}

/// The first state of a bootstrap.
pub open spec fn bootstrap_state(
    before_changes: Seq<(Seq<char>, Seq<char>)>,
    instructions: Seq<char>,
) -> RunStateView {
    RunStateView {
        change: Some(BOOTSTRAP_CHANGE@),
        stage: Stage::Propose,
        agenda: Some(
            AssignmentView {
                path: BOOTSTRAP_PATH@,
                change: BOOTSTRAP_CHANGE@,
                title: "Bootstrap implementation agenda"@,
                content: instructions,
            },
        ),
        bootstrap: true,
        ..new_state("bootstrap"@, before_changes)
    }
}

impl RunState {
    pub fn new(request: String, before_changes: ChangeSnapshot) -> (r: RunState)
        ensures
            r@ == new_state(request@, before_changes@),
    {
        RunState {
            schema_version: STATE_SCHEMA_VERSION,
            request,
            change: None,
            stage: Stage::Explore,
            verify_retries: 0,
            before_changes,
            planning_session: None,
            planning_backend: None,
            pending_repair: None,
            pending_direction: None,
            proposal_head: None,
            final_head: None,
            terminal_summary: None,
            too_large: None,
            campaign: None,
            agenda: None,
            slice_baseline: None,
            frontier_replans: 0,
            terminal_review_complete: false,
            terminal_remediations: 0,
            bootstrap: false,
            product_repo: None,
            sidecar_store: None,
            planning_final_head: None,
            local_only: false,
        }
    }

    /// The first state of a campaign.
    pub fn new_campaign(
        request: String,
        before_changes: ChangeSnapshot,
        max_iterations: Option<u32>,
    ) -> (r: RunState)
        ensures
            r@ == (RunStateView {
                campaign: Some(fresh_campaign(max_iterations)),
                ..new_state(request@, before_changes@)
            }),
    {
        let mut state = RunState::new(request, before_changes);
        state.campaign = Some(CampaignState::fresh(max_iterations));
        state
    }

    /// The state that goes on with an active change, at its proposal commit.
    pub fn continue_existing(change: String, active_changes: ChangeSnapshot) -> (r: RunState)
        ensures
            r@ == (RunStateView {
                change: Some(change@),
                stage: Stage::ProposalCommit,
                ..new_state(
                    "Continue existing OpenSpec change `"@ + change@ + "`"@,
                    active_changes@,
                )
            }),
    {
        let request = cat3("Continue existing OpenSpec change `", change.as_str(), "`");
        let mut state = RunState::new(request, active_changes);
        state.change = Some(change);
        state.stage = Stage::ProposalCommit;
        state
    }

    /// The first state of a bootstrap. `instructions` are what the planner is told.
    pub fn bootstrap(before_changes: ChangeSnapshot, instructions: &str) -> (r: RunState)
        ensures
            r@ == bootstrap_state(before_changes@, instructions@),
    {
        let mut state = RunState::new("bootstrap".to_owned(), before_changes);
        state.change = Some(BOOTSTRAP_CHANGE.to_owned());
        state.stage = Stage::Propose;
        state.agenda = Some(
            AgendaAssignment {
                path: BOOTSTRAP_PATH.to_owned(),
                change: BOOTSTRAP_CHANGE.to_owned(),
                title: "Bootstrap implementation agenda".to_owned(),
                content: instructions.to_owned(),
            },
        );
        state.bootstrap = true;
        state
    }

    /// The state of a bounded change that is planned outside the product repository.
    pub fn sidecar(
        request: String,
        change: String,
        before_changes: ChangeSnapshot,
        product_root: &str,
        store_id: &str,
        local_only: bool,
    ) -> (r: RunState)
        ensures
            r@ == (RunStateView {
                change: Some(change@),
                stage: Stage::Propose,
                product_repo: Some(product_root@),
                sidecar_store: Some(store_id@),
                local_only,
                ..new_state(request@, before_changes@)
            }),
    {
        let mut state = RunState::new(request, before_changes);
        state.change = Some(change);
        state.stage = Stage::Propose;
        state.product_repo = Some(product_root.to_owned());
        state.sidecar_store = Some(store_id.to_owned());
        state.local_only = local_only;
        state
    }

    /// Forgets the one-shot direction.
    pub fn consume_direction(&mut self)
        ensures
            final(self)@ == (RunStateView { pending_direction: None, ..old(self)@ }),
    {
        self.pending_direction = None;
    }
}

/// Whether the run stands at the terminal slice that ends its agenda.
pub open spec fn at_terminal_gate(s: RunStateView) -> bool {
    s.agenda matches Some(a) && terminal(a)
}

pub fn is_terminal_gate(state: &RunState) -> (r: bool)
    ensures
        r == at_terminal_gate(state@),
{
    match &state.agenda {
        Some(a) => is_terminal_assignment(a),
        None => false,
    }
}

/// Whether the frontier model has to review the project before the terminal slice is proposed.
pub open spec fn review_needed(s: RunStateView) -> bool {
    at_terminal_gate(s) && s.stage == Stage::Propose && !s.terminal_review_complete && s.too_large
        is None
}

pub fn needs_terminal_review(state: &RunState) -> (r: bool)
    ensures
        r == review_needed(state@),
{
    is_terminal_gate(state) && state.stage == Stage::Propose && !state.terminal_review_complete
        && state.too_large.is_none()
}

/// Whether the frontier model carries the work at the terminal slice.
pub open spec fn frontier_carries(s: RunStateView, frontier_available: bool) -> bool {
    at_terminal_gate(s) && !s.local_only && frontier_available
}

pub fn uses_terminal_frontier(state: &RunState, frontier_available: bool) -> (r: bool)
    ensures
        r == frontier_carries(state@, frontier_available),
{
    is_terminal_gate(state) && !state.local_only && frontier_available
}

/// A run that is confined to the local model never hands work to the frontier.
pub proof fn law_local_only_never_uses_frontier(s: RunStateView, frontier_available: bool)
    requires
        s.local_only,
    ensures
        !frontier_carries(s, frontier_available),
{
}

/// The repository that holds the product: the planning repository itself, unless the
/// change is planned outside.
pub open spec fn product_root(planning_repo: Seq<char>, s: RunStateView) -> Seq<char> {
    match s.product_repo {
        Some(product) => product,
        None => planning_repo,
    }
}

pub fn product_repository(planning_repo: &str, state: &RunState) -> (r: String)
    ensures
        r@ == product_root(planning_repo@, state@),
{
    match &state.product_repo {
        Some(product) => product.clone(),
        None => planning_repo.to_owned(),
    }
}

/// Direction for the next code-changing stage. Where the implementation is already
/// past repair, it is repaired again.
pub open spec fn directed(s: RunStateView, direction: Seq<char>) -> RunStateView {
    if s.stage == Stage::Verify || s.stage == Stage::Archive || s.stage == Stage::FinalCommit {
        RunStateView {
            pending_direction: Some(direction),
            stage: Stage::Repair,
            pending_repair: None,
            ..s
        }
    } else {
        RunStateView { pending_direction: Some(direction), ..s }
    }
}

pub fn queue_direction(state: &mut RunState, direction: &str)
    ensures
        final(state)@ == directed(old(state)@, direction@),
{
    state.pending_direction = Some(direction.to_owned());
    if matches!(state.stage, Stage::Verify | Stage::Archive | Stage::FinalCommit) {
        state.stage = Stage::Repair;
        state.pending_repair = None;
    }
}

/// A queued direction is there until it is consumed, and then gone; nothing else of
/// the state but the stage and the pending repair is touched by queueing it.
pub proof fn law_direction_is_one_shot(s: RunStateView, direction: Seq<char>)
    ensures
        directed(s, direction).pending_direction == Some(direction),
        (RunStateView { pending_direction: None, ..directed(s, direction) }).pending_direction is None,
        directed(s, direction).stage != s.stage ==> directed(s, direction).stage == Stage::Repair,
        directed(s, direction).change == s.change,
        directed(s, direction).campaign == s.campaign,
        directed(s, direction).verify_retries == s.verify_retries,
{
}

/// A request is begun with its exploration and nothing done: no change, no plan, no commit,
/// no report, no agenda and no campaign. It may use the frontier model.
pub proof fn law_requests_begin_from_nothing(
    request: Seq<char>,
    before_changes: Seq<(Seq<char>, Seq<char>)>,
)
    ensures
        ({
            let s = new_state(request, before_changes);
            &&& s.request == request && s.before_changes == before_changes
            &&& s.stage == Stage::Explore
            &&& s.change is None && s.agenda is None && s.campaign is None
            &&& s.planning_session is None && s.planning_backend is None
            &&& s.pending_repair is None && s.pending_direction is None && s.too_large is None
            &&& s.proposal_head is None && s.final_head is None && s.planning_final_head is None
            &&& s.terminal_summary is None && s.slice_baseline is None
            &&& s.verify_retries == 0 && s.frontier_replans == 0 && s.terminal_remediations == 0
            &&& !s.terminal_review_complete && !s.bootstrap && !s.local_only
            &&& s.product_repo is None && s.sidecar_store is None
        }),
{
}

/// A bootstrap is a run that is past its exploration and whose one slice is the planner's
/// instructions, for the change that the slice is assigned to. It is not the terminal slice.
pub proof fn law_bootstraps_plan_from_their_instructions(
    before_changes: Seq<(Seq<char>, Seq<char>)>,
    instructions: Seq<char>,
)
    ensures
        ({
            let s = bootstrap_state(before_changes, instructions);
            &&& s.bootstrap && s.stage == Stage::Propose && s.before_changes == before_changes
            &&& s.request == "bootstrap"@
            &&& s.agenda matches Some(a) && a.content == instructions && s.change == Some(a.change)
                && a.path == BOOTSTRAP_PATH@
            &&& !at_terminal_gate(s)
            &&& s.campaign is None && s.too_large is None && !s.local_only
        }),
{
    reveal_strlit("automation/bootstrap.md");
    reveal_strlit("automation/slices/9999-project-acceptance.md");
    assert(BOOTSTRAP_PATH@[11] == 'b');
    assert(TERMINAL_PATH@[11] == 's');
}

/// A campaign begins with its first iteration, nothing completed, and the limit that it is
/// given.
pub proof fn law_campaigns_begin_with_their_limit(limit: Option<u32>)
    ensures
        fresh_campaign(limit).iteration == 1,
        fresh_campaign(limit).completed.len() == 0,
        fresh_campaign(limit).max_iterations == limit,
{
}

/// Direction that is given while the work is judged, archived or about to be committed
/// sends it back to a repair that follows the direction and not earlier findings. Before
/// that it only waits for the next stage that writes code.
pub proof fn law_late_direction_reopens_the_work(s: RunStateView, direction: Seq<char>)
    ensures
        ({
            let t = directed(s, direction);
            let late = s.stage == Stage::Verify || s.stage == Stage::Archive || s.stage
                == Stage::FinalCommit;
            &&& t.pending_direction == Some(direction)
            &&& late ==> t.stage == Stage::Repair && t.pending_repair is None
            &&& !late ==> t.stage == s.stage && t.pending_repair == s.pending_repair
            &&& (RunStateView {
                pending_direction: s.pending_direction,
                stage: s.stage,
                pending_repair: s.pending_repair,
                ..t
            }) == s
        }),
{
}

/// The terminal slice, and no other, is reviewed before it is proposed, once, and carried by
/// the frontier model where there is one and the run may use it.
pub proof fn law_only_the_terminal_slice_is_special(s: RunStateView, frontier_available: bool)
    ensures
        at_terminal_gate(s) <==> (s.agenda matches Some(a) && a.path
            == "automation/slices/9999-project-acceptance.md"@),
        s.agenda is None ==> !review_needed(s) && !frontier_carries(s, frontier_available),
        review_needed(s) ==> at_terminal_gate(s) && s.stage == Stage::Propose
            && !s.terminal_review_complete && s.too_large is None,
        at_terminal_gate(s) && s.stage == Stage::Propose && !s.terminal_review_complete
            && s.too_large is None ==> review_needed(s),
        s.terminal_review_complete ==> !review_needed(s),
        frontier_carries(s, false) == false,
        frontier_carries(s, true) <==> at_terminal_gate(s) && !s.local_only,
{
}

/// The product is where the run says it is, and in the planning repository where it says
/// nothing.
pub proof fn law_products_are_where_they_are_said_to_be(planning_repo: Seq<char>, s: RunStateView)
    ensures
        s.product_repo matches Some(p) ==> product_root(planning_repo, s) == p,
        s.product_repo is None ==> product_root(planning_repo, s) == planning_repo,
{
}

} // verus!
