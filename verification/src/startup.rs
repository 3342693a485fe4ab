//! How a run is started: which of the things that can be asked for is done, what stands in
//! its way, and the state that a new run begins with.
use crate::assignment::{check_no_unfinished, unfinished};
use crate::cli::{BackendKind, Cli, CliView};
use crate::backend::AgentError;
use crate::dashboard::{
    CampaignDashboardView, CampaignIterationDashboardView, CampaignSpec, IterationSpec,
};
use crate::effect::{effects0, effects3, push_effect, Effect, EffectView};
use crate::failure::{fail, fail_with, failed, outcome, Failure};
use crate::launcher::{connection_description, description, AgentLauncher, AgentView};
use crate::names::{Harness, HarnessView};
use crate::openspec::ChangeSnapshot;
use crate::planning::{valid_change_name, validate_change_name};
use crate::state::{fresh_campaign, new_state, CampaignView, CompletedView, RunState, RunStateView};
use crate::text::{
    cat2, cat3, cat4, cat5, copy_option, equal, lemma_seen_all_push, seen, seen_all, text_option,
};
use vstd::prelude::*;
use vstd::string::*;

verus! {

/// Where the plans of a checkout are kept, when they are kept outside of it.
#[derive(Debug, Clone)]
pub struct SidecarAssociation {
    pub product_root: String,
    pub planning_root: String,
    pub store_id: String,
}

/// A [`SidecarAssociation`] by view.
pub struct SidecarView {
    pub product_root: Seq<char>,
    pub planning_root: Seq<char>,
    pub store_id: Seq<char>,
}

impl View for SidecarAssociation {
    type V = SidecarView;

    open spec fn view(&self) -> SidecarView {
        SidecarView {
            product_root: self.product_root@,
            planning_root: self.planning_root@,
            store_id: self.store_id@,
        }
    }
}

/// What is done first.
#[derive(Debug, Clone, Copy, PartialEq, Eq, Structural)]
pub enum Start {
    TestConnection,
    Rewind,
    /// Look for the sidecar of the checkout, and go on from there.
    Associate,
}

pub open spec fn start(c: CliView) -> Start {
    if c.test_connection is Some {
        Start::TestConnection
    } else if c.request == "rewind"@ {
        Start::Rewind
    } else {
        Start::Associate
    }
}

/// Decides what is done first.
pub fn start_route(cli: &Cli) -> (r: Start)
    ensures
        r == start(cli@),
{
    if cli.test_connection.is_some() {
        Start::TestConnection
    } else if equal(cli.request.as_str(), "rewind") {
        Start::Rewind
    } else {
        Start::Associate
    }
}

/// What a checkout's sidecar needs.
#[derive(Debug, Clone, Copy, PartialEq, Eq, Structural)]
pub enum SidecarNeed {
    /// Nothing: there is one, or none is asked for.
    Nothing,
    /// One has to be created first.
    Creation,
}

pub const NO_OPENCODE_SIDECAR: &'static str =
    "the first OpenCode adapter does not yet support sidecar repositories; use an in-repository OpenSpec project or a ";

pub const NO_SIDECAR: &'static str =
    "this checkout has no associated sidecar; start one bounded --sidecar change with --context and --change first";

pub const NO_SIDECAR_CONTEXT: &'static str =
    "the first --sidecar invocation requires --context PATH with the bounded project/change context";

pub open spec fn sidecar_need(
    c: CliView,
    worker: BackendKind,
    associated: bool,
    h: HarnessView,
) -> Result<SidecarNeed, Seq<char>> {
    if (c.sidecar || associated) && worker == BackendKind::OpenCode {
        Err(NO_OPENCODE_SIDECAR@ + h.title + " worker for this run"@)
    } else if c.sidecar && !associated && (c.resume || c.forget || c.update_skills) {
        Err(NO_SIDECAR@)
    } else if c.sidecar && !associated {
        if c.bootstrap_context is None {
            Err(NO_SIDECAR_CONTEXT@)
        } else {
            Ok(SidecarNeed::Creation)
        }
    } else {
        Ok(SidecarNeed::Nothing)
    }
}

/// Decides what the checkout's sidecar needs.
pub fn sidecar_route(cli: &Cli, associated: bool, harness: &Harness) -> (r: Result<
    SidecarNeed,
    Failure,
>)
    ensures
        match sidecar_need(cli@, cli.worker_connection.backend, associated, harness@) {
            Ok(need) => r == Ok::<_, Failure>(need),
            Err(message) => failed(r, message),
        },
{
    if (cli.sidecar || associated) && cli.worker_connection.backend == BackendKind::OpenCode {
        return fail(
            cat3(NO_OPENCODE_SIDECAR, harness.title.as_str(), " worker for this run"),
        );
    }
    if cli.sidecar && !associated {
        if cli.resume || cli.forget || cli.update_skills {
            return fail_with(NO_SIDECAR);
        }
        if cli.bootstrap_context.is_none() {
            return fail_with(NO_SIDECAR_CONTEXT);
        }
        return Ok(SidecarNeed::Creation);
    }
    Ok(SidecarNeed::Nothing)
}

/// What a checkout with a sidecar does not do.
pub open spec fn sidecar_fault(c: CliView, associated: bool) -> Option<Seq<char>> {
    if !associated {
        None
    } else if c.request == "bootstrap"@ {
        Some("sidecar campaign bootstrap is not implemented yet; use one bounded change"@)
    } else if c.loop_workflow {
        Some("the initial sidecar release supports one bounded change, not --loop"@)
    } else if c.continue_existing {
        Some("the initial sidecar release does not support --continue-existing"@)
    } else if c.bootstrap_context is Some && !c.sidecar {
        Some(
            "--context is only used when creating a sidecar; this checkout is already associated"@,
        )
    } else {
        None
    }
}

/// Refuses what a checkout with a sidecar does not do.
pub fn check_sidecar(cli: &Cli, associated: bool) -> (r: Result<(), Failure>)
    ensures
        match sidecar_fault(cli@, associated) {
            None => r is Ok,
            Some(message) => failed(r, message),
        },
{
    if !associated {
        return Ok(());
    }
    if equal(cli.request.as_str(), "bootstrap") {
        return fail_with(
            "sidecar campaign bootstrap is not implemented yet; use one bounded change",
        );
    }
    if cli.loop_workflow {
        return fail_with("the initial sidecar release supports one bounded change, not --loop");
    }
    if cli.continue_existing {
        return fail_with("the initial sidecar release does not support --continue-existing");
    }
    if cli.bootstrap_context.is_some() && !cli.sidecar {
        return fail_with(
            "--context is only used when creating a sidecar; this checkout is already associated",
        );
    }
    Ok(())
}

/// What is done with a checkout.
#[derive(Debug, Clone, Copy, PartialEq, Eq, Structural)]
pub enum Work {
    Forget,
    UpdateSkills,
    Bootstrap,
    Interactive,
    Workflow,
}

pub open spec fn work(c: CliView) -> Work {
    if c.forget {
        Work::Forget
    } else if c.update_skills {
        Work::UpdateSkills
    } else if c.bootstrap_context is Some || c.execute || c.request == "bootstrap"@ {
        Work::Bootstrap
    } else if c.interactive {
        Work::Interactive
    } else {
        Work::Workflow
    }
}

/// Decides what is done with the checkout.
pub fn work_route(cli: &Cli) -> (r: Work)
    ensures
        r == work(cli@),
{
    if cli.forget {
        Work::Forget
    } else if cli.update_skills {
        Work::UpdateSkills
    } else if cli.bootstrap_context.is_some() || cli.execute || equal(
        cli.request.as_str(),
        "bootstrap",
    ) {
        Work::Bootstrap
    } else if cli.interactive {
        Work::Interactive
    } else {
        Work::Workflow
    }
}

/// Refuses a workflow in a repository that OpenSpec is not set up in.
pub fn check_openspec(repo: &str, configured: bool) -> (r: Result<(), Failure>)
    ensures
        if configured {
            r is Ok
        } else {
            failed(
                r,
                "no OpenSpec setup found at `"@ + repo@ + "`; expected `openspec/config.yaml`"@,
            )
        },
{
    if configured {
        Ok(())
    } else {
        fail(
            cat3("no OpenSpec setup found at `", repo, "`; expected `openspec/config.yaml`"),
        )
    }
}

/// How a workflow is begun.
#[derive(Debug, Clone, Copy, PartialEq, Eq, Structural)]
pub enum Launch {
    Resume,
    ContinueExisting,
    DryRun,
    New,
}

pub open spec fn launch(c: CliView, existing: Option<RunStateView>) -> Result<Launch, Seq<char>> {
    if c.resume {
        Ok(Launch::Resume)
    } else if existing is Some && unfinished(existing->0) {
        Err(
            "an unfinished opsx-build run is recorded at "@ + existing->0.stage.name()
                + "; use `--resume` or `--forget`"@,
        )
    } else if c.continue_existing {
        Ok(Launch::ContinueExisting)
    } else if c.dry_run {
        Ok(Launch::DryRun)
    } else {
        Ok(Launch::New)
    }
}

/// Decides how a workflow is begun. `existing` is the checkpoint that is recorded.
pub fn launch_route(cli: &Cli, existing: Option<&RunState>) -> (r: Result<Launch, Failure>)
    ensures
        match launch(
            cli@,
            match existing {
                Some(state) => Some(state@),
                None => None,
            },
        ) {
            Ok(route) => r == Ok::<_, Failure>(route),
            Err(message) => failed(r, message),
        },
{
    if cli.resume {
        return Ok(Launch::Resume);
    }
    if let Some(state) = existing {
        if let Err(e) = check_no_unfinished(state) {
            return Err(e);
        }
    }
    if cli.continue_existing {
        Ok(Launch::ContinueExisting)
    } else if cli.dry_run {
        Ok(Launch::DryRun)
    } else {
        Ok(Launch::New)
    }
}

/// All that a run can come to.
#[derive(Debug, Clone, Copy, PartialEq, Eq, Structural)]
pub enum Run {
    TestConnection,
    Rewind,
    CreateSidecar,
    Forget,
    UpdateSkills,
    Bootstrap,
    Interactive,
    Workflow(Launch),
}

/// What is found in a repository when a run is started.
#[derive(Debug, Clone)]
pub struct RepositoryFacts {
    pub repo: String,
    /// Whether the checkout has a sidecar.
    pub associated: bool,
    /// Whether OpenSpec is set up.
    pub configured: bool,
    /// The checkpoint that is recorded.
    pub existing: Option<RunState>,
}

/// What a run comes to, from what is asked for and what is found.
pub open spec fn run_of(
    c: CliView,
    worker: BackendKind,
    repo: Seq<char>,
    associated: bool,
    configured: bool,
    existing: Option<RunStateView>,
    h: HarnessView,
) -> Result<Run, Seq<char>> {
    match start(c) {
        Start::TestConnection => Ok(Run::TestConnection),
        Start::Rewind => Ok(Run::Rewind),
        Start::Associate => match sidecar_need(c, worker, associated, h) {
            Err(message) => Err(message),
            Ok(SidecarNeed::Creation) => Ok(Run::CreateSidecar),
            Ok(SidecarNeed::Nothing) => match sidecar_fault(c, associated) {
                Some(message) => Err(message),
                None => match work(c) {
                    Work::Forget => Ok(Run::Forget),
                    Work::UpdateSkills => Ok(Run::UpdateSkills),
                    Work::Bootstrap => Ok(Run::Bootstrap),
                    Work::Interactive => Ok(Run::Interactive),
                    Work::Workflow => if !configured {
                        Err(
                            "no OpenSpec setup found at `"@ + repo
                                + "`; expected `openspec/config.yaml`"@,
                        )
                    } else {
                        match launch(c, existing) {
                            Ok(route) => Ok(Run::Workflow(route)),
                            Err(message) => Err(message),
                        }
                    },
                },
            },
        },
    }
}

/// Decides what a run comes to.
pub fn plan_run(cli: &Cli, facts: &RepositoryFacts, harness: &Harness) -> (r: Result<Run, Failure>)
    ensures
        match run_of(
            cli@,
            cli.worker_connection.backend,
            facts.repo@,
            facts.associated,
            facts.configured,
            seen(facts.existing),
            harness@,
        ) {
            Ok(run) => r == Ok::<_, Failure>(run),
            Err(message) => failed(r, message),
        },
{
    match start_route(cli) {
        Start::TestConnection => {
            return Ok(Run::TestConnection);
        },
        Start::Rewind => {
            return Ok(Run::Rewind);
        },
        Start::Associate => {},
    }
    match sidecar_route(cli, facts.associated, harness) {
        Err(e) => {
            return Err(e);
        },
        Ok(SidecarNeed::Creation) => {
            return Ok(Run::CreateSidecar);
        },
        Ok(SidecarNeed::Nothing) => {},
    }
    if let Err(e) = check_sidecar(cli, facts.associated) {
        return Err(e);
    }
    match work_route(cli) {
        Work::Forget => Ok(Run::Forget),
        Work::UpdateSkills => Ok(Run::UpdateSkills),
        Work::Bootstrap => Ok(Run::Bootstrap),
        Work::Interactive => Ok(Run::Interactive),
        Work::Workflow => {
            if let Err(e) = check_openspec(facts.repo.as_str(), facts.configured) {
                return Err(e);
            }
            let existing = match &facts.existing {
                Some(state) => Some(state),
                None => None,
            };
            match launch_route(cli, existing) {
                Ok(route) => Ok(Run::Workflow(route)),
                Err(e) => Err(e),
            }
        },
    }
}

/// A run that is not finished is never replaced by another.
pub proof fn law_unfinished_runs_are_kept(
    c: CliView,
    worker: BackendKind,
    repo: Seq<char>,
    associated: bool,
    configured: bool,
    existing: RunStateView,
    h: HarnessView,
)
    requires
        unfinished(existing),
    ensures
        run_of(c, worker, repo, associated, configured, Some(existing), h) matches Ok(
            Run::Workflow(route),
        ) ==> route == Launch::Resume,
{
}

/// A checkout with a sidecar runs one bounded change: no campaign, no bootstrap and no other
/// active change.
pub proof fn law_sidecar_runs_are_bounded(
    c: CliView,
    worker: BackendKind,
    repo: Seq<char>,
    configured: bool,
    existing: Option<RunStateView>,
    h: HarnessView,
)
    requires
        start(c) == Start::Associate,
        run_of(c, worker, repo, true, configured, existing, h) is Ok,
    ensures
        !c.loop_workflow,
        !c.continue_existing,
        c.request != "bootstrap"@,
        worker != BackendKind::OpenCode,
{
}

/// A dry run never begins a workflow of its own.
pub proof fn law_dry_runs_begin_nothing(
    c: CliView,
    worker: BackendKind,
    repo: Seq<char>,
    associated: bool,
    configured: bool,
    existing: Option<RunStateView>,
    h: HarnessView,
)
    requires
        c.dry_run,
    ensures
        run_of(c, worker, repo, associated, configured, existing, h) != Ok::<_, Seq<char>>(
            Run::Workflow(Launch::New),
        ),
{
}

/// Whether the frontier is left out of a run.
pub open spec fn local(c: CliView, associated: bool) -> bool {
    c.local_only || associated
}

/// Tells whether the frontier is left out of a run.
pub fn is_local(cli: &Cli, associated: bool) -> (r: bool)
    ensures
        r == local(cli@, associated),
{
    cli.local_only || associated
}

/// Where the plans of a checkout are: in its sidecar, or in the repository itself.
pub fn planning_repository(product_repo: &str, sidecar: Option<&SidecarAssociation>) -> (r: String)
    ensures
        r@ == match sidecar {
            Some(s) => s.planning_root@,
            None => product_repo@,
        },
{
    match sidecar {
        Some(s) => s.planning_root.as_str().to_owned(),
        None => product_repo.to_owned(),
    }
}

/// What is said of a checkout before anything is done with it.
pub open spec fn opening(c: CliView, sidecar: Option<SidecarView>) -> Seq<EffectView> {
    let placed = match sidecar {
        Some(s) => seq![
            EffectView::Info(
                "Planning sidecar `"@ + s.store_id + "`: `"@ + s.planning_root + "`"@,
            ),
        ],
        None => Seq::empty(),
    };
    if local(c, sidecar is Some) {
        placed.push(EffectView::Info("LOCAL-ONLY: frontier fallback is disabled"@))
    } else {
        placed
    }
}

pub fn opening_effects(cli: &Cli, sidecar: Option<&SidecarAssociation>) -> (r: Vec<Effect>)
    ensures
        seen_all(r@) == opening(
            cli@,
            match sidecar {
                Some(s) => Some(s@),
                None => None,
            },
        ),
{
    let mut list = effects0();
    if let Some(s) = sidecar {
        push_effect(
            &mut list,
            Effect::Info(
                cat5(
                    "Planning sidecar `",
                    s.store_id.as_str(),
                    "`: `",
                    s.planning_root.as_str(),
                    "`",
                ),
            ),
        );
    }
    let local_only = is_local(cli, sidecar.is_some());
    if local_only {
        push_effect(
            &mut list,
            Effect::Info("LOCAL-ONLY: frontier fallback is disabled".to_owned()),
        );
    }
    assert(seen_all(list@) =~= opening(
        cli@,
        match sidecar {
            Some(s) => Some(s@),
            None => None,
        },
    ));
    list
}

/// What is said of the connections of a workflow, where one of them has a name.
pub open spec fn connections(
    worker: AgentView,
    frontier: Option<AgentView>,
    h: HarnessView,
) -> Option<Seq<char>> {
    if worker.connection_name() is Some || (frontier is Some
        && frontier->0.connection_name() is Some) {
        Some(
            match frontier {
                None => "Connections: worker "@ + description(worker, h) + " (all model stages)"@,
                Some(f) => "Connections: worker "@ + description(worker, h) + ", frontier "@
                    + description(f, h),
            },
        )
    } else {
        None
    }
}

pub fn connections_line(
    worker: &AgentLauncher,
    frontier: Option<&AgentLauncher>,
    harness: &Harness,
) -> (r: Option<String>)
    ensures
        text_option(r) == connections(
            worker@,
            match frontier {
                Some(f) => Some(f@),
                None => None,
            },
            harness@,
        ),
{
    let named = match frontier {
        Some(f) => f.connection_name().is_some(),
        None => false,
    };
    if !worker.connection_name().is_some() && !named {
        return None;
    }
    let first = connection_description(worker, harness);
    match frontier {
        None => Some(cat3("Connections: worker ", first.as_str(), " (all model stages)")),
        Some(f) => {
            let second = connection_description(f, harness);
            Some(cat4("Connections: worker ", first.as_str(), ", frontier ", second.as_str()))
        },
    }
}

/// What is said of the connections of a bootstrap.
pub open spec fn bootstrap_connections(
    planner: AgentView,
    worker: Option<AgentView>,
    h: HarnessView,
) -> Seq<char> {
    match worker {
        Some(w) => "Connections: bootstrap/frontier "@ + description(planner, h)
            + ", campaign worker "@ + description(w, h),
        None => "Bootstrap planner: "@ + description(planner, h),
    }
}

pub fn bootstrap_connections_line(
    planner: &AgentLauncher,
    worker: Option<&AgentLauncher>,
    harness: &Harness,
) -> (r: String)
    ensures
        r@ == bootstrap_connections(
            planner@,
            match worker {
                Some(w) => Some(w@),
                None => None,
            },
            harness@,
        ),
{
    let first = connection_description(planner, harness);
    match worker {
        Some(w) => {
            let second = connection_description(w, harness);
            cat4(
                "Connections: bootstrap/frontier ",
                first.as_str(),
                ", campaign worker ",
                second.as_str(),
            )
        },
        None => cat2("Bootstrap planner: ", first.as_str()),
    }
}

pub const SIDECAR_NEEDS_CHANGE: &'static str = "a new sidecar change requires --change NAME";

/// The state that a new run begins with, before a change or an agenda is assigned to it.
pub open spec fn begun(
    c: CliView,
    sidecar: Option<SidecarView>,
    before: Seq<(Seq<char>, Seq<char>)>,
) -> Result<RunStateView, Seq<char>> {
    match sidecar {
        Some(s) => match c.change {
            None => Err(SIDECAR_NEEDS_CHANGE@),
            Some(change) => if !valid_change_name(change) {
                Err(
                    "OpenSpec returned unsafe change name `"@ + change
                        + "`; expected lowercase kebab-case"@,
                )
            } else {
                Ok(
                    RunStateView {
                        change: Some(change),
                        stage: crate::stage::Stage::Propose,
                        product_repo: Some(s.product_root),
                        sidecar_store: Some(s.store_id),
                        local_only: true,
                        ..new_state(c.request, before)
                    },
                )
            },
        },
        None => if c.loop_workflow {
            Ok(
                RunStateView {
                    campaign: Some(fresh_campaign(c.max_iterations)),
                    local_only: local(c, false),
                    ..new_state(c.request, before)
                },
            )
        } else {
            Ok(RunStateView { local_only: local(c, false), ..new_state(c.request, before) })
        },
    }
}

/// Begins a new run.
pub fn begin_run(
    cli: &Cli,
    sidecar: Option<&SidecarAssociation>,
    before_changes: ChangeSnapshot,
) -> (r: Result<RunState, Failure>)
    ensures
        outcome(r) == begun(
            cli@,
            match sidecar {
                Some(s) => Some(s@),
                None => None,
            },
            before_changes@,
        ),
{
    let request = cli.request.as_str().to_owned();
    if let Some(s) = sidecar {
        let change = match &cli.change {
            Some(change) => change.as_str().to_owned(),
            None => {
                return fail_with(SIDECAR_NEEDS_CHANGE);
            },
        };
        if let Err(e) = validate_change_name(change.as_str()) {
            return Err(e);
        }
        return Ok(
            RunState::sidecar(
                request,
                change,
                before_changes,
                s.product_root.as_str(),
                s.store_id.as_str(),
                true,
            ),
        );
    }
    let mut state = if cli.loop_workflow {
        RunState::new_campaign(request, before_changes, cli.max_iterations)
    } else {
        RunState::new(request, before_changes)
    };
    state.local_only = is_local(cli, false);
    Ok(state)
}

/// A run with a sidecar never reaches the frontier.
pub proof fn law_sidecar_runs_stay_local(
    c: CliView,
    sidecar: SidecarView,
    before: Seq<(Seq<char>, Seq<char>)>,
)
    ensures
        begun(c, Some(sidecar), before) matches Ok(state) ==> state.local_only,
{
}

/// The state that a bootstrap begins with.
pub fn begin_bootstrap(cli: &Cli, before_changes: ChangeSnapshot, instructions: &str) -> (r:
    RunState)
    ensures
        r@ == (RunStateView {
            campaign: if cli.execute {
                Some(fresh_campaign(cli.max_iterations))
            } else {
                None
            },
            ..crate::state::bootstrap_state(before_changes@, instructions@)
        }),
{
    let mut state = RunState::bootstrap(before_changes, instructions);
    if cli.execute {
        state.campaign = Some(crate::state::CampaignState::fresh(cli.max_iterations));
    }
    state
}

/// An iteration that is over, as the dashboard shows it.
pub open spec fn shown_iteration(c: CompletedView) -> IterationSpec {
    IterationSpec {
        iteration: c.iteration,
        change: c.change,
        final_head: c.final_head,
        elapsed_seconds: c.elapsed_seconds,
    }
}

/// A campaign, as the dashboard shows it.
pub open spec fn shown_campaign(campaign: Option<CampaignView>) -> Option<CampaignSpec> {
    match campaign {
        None => None,
        Some(c) => Some(
            CampaignSpec {
                iteration: c.iteration,
                max_iterations: c.max_iterations,
                completed: c.completed.map_values(|i: CompletedView| shown_iteration(i)),
            },
        ),
    }
}

/// Presents the campaign of a run to the dashboard.
pub fn present_campaign(state: &RunState) -> (r: Option<CampaignDashboardView>)
    ensures
        seen(r) == shown_campaign(state@.campaign),
{
    let campaign = match &state.campaign {
        Some(campaign) => campaign,
        None => {
            return None;
        },
    };
    let ghost all = campaign@.completed.map_values(|i: CompletedView| shown_iteration(i));
    let mut completed: Vec<CampaignIterationDashboardView> = Vec::new();
    let mut i: usize = 0;
    assert(seen_all(completed@) =~= all.take(0));
    while i < campaign.completed.len()
        invariant
            i <= campaign.completed@.len(),
            all == campaign@.completed.map_values(|i: CompletedView| shown_iteration(i)),
            seen_all(completed@) == all.take(i as int),
        decreases campaign.completed@.len() - i,
    {
        let entry = &campaign.completed[i];
        let shown = CampaignIterationDashboardView {
            iteration: entry.iteration,
            change: entry.change.as_str().to_owned(),
            final_head: copy_option(&entry.final_head),
            elapsed_seconds: entry.elapsed_seconds,
        };
        proof {
            lemma_seen_all_push(completed@, shown);
            assert(campaign@.completed[i as int] == entry@);
            assert(shown@ == all[i as int]);
        }
        completed.push(shown);
        assert(seen_all(completed@) =~= all.take(i + 1));
        i += 1;
    }
    assert(all.take(i as int) =~= all);
    Some(
        CampaignDashboardView {
            iteration: campaign.iteration,
            max_iterations: campaign.max_iterations,
            completed,
        },
    )
}

/// A run of the program, with what it was asked for.
#[derive(Debug)]
pub struct App {
    pub cli: Cli,
}

impl App {
    pub fn new(cli: Cli) -> (r: App)
        ensures
            r.cli == cli,
    {
        App { cli }
    }

    /// How a run ends: a pause is no failure, and says how to go on.
    pub fn run(&self, ended: Result<(), AgentError>, resume_command: &str) -> (r: (
        Vec<Effect>,
        Result<(), AgentError>,
    ))
        ensures
            if ended matches Err(AgentError::Pause) {
                &&& seen_all(r.0@) == seq![
                    EffectView::FinishDashboard,
                    EffectView::Success(
                        "PAUSED — the current phase checkpoint was preserved"@,
                    ),
                    EffectView::Info("Resume with: "@ + resume_command@),
                ]
                &&& r.1 is Ok
            } else {
                seen_all(r.0@) == Seq::<EffectView>::empty() && r.1 == ended
            },
    {
        match ended {
            Err(AgentError::Pause) => (
                effects3(
                    Effect::FinishDashboard,
                    Effect::Success(
                        "PAUSED — the current phase checkpoint was preserved".to_owned(),
                    ),
                    Effect::Info(cat2("Resume with: ", resume_command)),
                ),
                Ok(()),
            ),
            ended => (effects0(), ended),
        }
    }
}

/// What a run comes to where no sidecar is asked for or found. Each thing that can be asked
/// for is done where it is asked for, and a workflow runs only where OpenSpec is set up.
pub proof fn law_runs_do_what_is_asked(
    c: CliView,
    worker: BackendKind,
    repo: Seq<char>,
    configured: bool,
    existing: Option<RunStateView>,
    h: HarnessView,
)
    requires
        !c.sidecar,
    ensures
        ({
            let r = run_of(c, worker, repo, false, configured, existing, h);
            let plain = c.test_connection is None && c.request != "rewind"@;
            let kept = plain && !c.forget && !c.update_skills;
            let running = kept && c.bootstrap_context is None && !c.execute && c.request
                != "bootstrap"@ && !c.interactive;
            let open = existing is Some && unfinished(existing->0);
            &&& (r == Ok::<Run, Seq<char>>(Run::TestConnection)) == (c.test_connection is Some)
            &&& (r == Ok::<Run, Seq<char>>(Run::Rewind)) == (c.test_connection is None && c.request
                == "rewind"@)
            &&& (r == Ok::<Run, Seq<char>>(Run::Forget)) == (plain && c.forget)
            &&& (r == Ok::<Run, Seq<char>>(Run::UpdateSkills)) == (plain && !c.forget
                && c.update_skills)
            &&& (r == Ok::<Run, Seq<char>>(Run::Bootstrap)) == (kept && (c.bootstrap_context is Some
                || c.execute || c.request == "bootstrap"@))
            &&& (r == Ok::<Run, Seq<char>>(Run::Interactive)) == (kept && c.bootstrap_context is None
                && !c.execute && c.request != "bootstrap"@ && c.interactive)
            &&& (r == Ok::<Run, Seq<char>>(Run::Workflow(Launch::Resume))) == (running && configured
                && c.resume)
            &&& (r == Ok::<Run, Seq<char>>(Run::Workflow(Launch::ContinueExisting))) == (running
                && configured && !c.resume && !open && c.continue_existing)
            &&& (r == Ok::<Run, Seq<char>>(Run::Workflow(Launch::DryRun))) == (running && configured
                && !c.resume && !open && !c.continue_existing && c.dry_run)
            &&& (r == Ok::<Run, Seq<char>>(Run::Workflow(Launch::New))) == (running && configured
                && !c.resume && !open && !c.continue_existing && !c.dry_run)
            &&& (r is Err) == (running && (!configured || (!c.resume && open)))
            &&& r != Ok::<Run, Seq<char>>(Run::CreateSidecar)
        }),
{
}

/// A sidecar is created on the first run that asks for one with its context, and only
/// there. A checkout without a sidecar has none to resume, forget or update, and a harness
/// that cannot work in one is refused.
pub proof fn law_sidecars_are_created_once(
    c: CliView,
    worker: BackendKind,
    repo: Seq<char>,
    associated: bool,
    configured: bool,
    existing: Option<RunStateView>,
    h: HarnessView,
)
    requires
        c.test_connection is None,
        c.request != "rewind"@,
    ensures
        (run_of(c, worker, repo, associated, configured, existing, h) == Ok::<Run, Seq<char>>(
            Run::CreateSidecar,
        )) == (c.sidecar && !associated && worker != BackendKind::OpenCode && !c.resume && !c.forget
            && !c.update_skills && c.bootstrap_context is Some),
        c.sidecar && !associated && run_of(
            c,
            worker,
            repo,
            associated,
            configured,
            existing,
            h,
        ) is Ok ==> run_of(c, worker, repo, associated, configured, existing, h)
            == Ok::<Run, Seq<char>>(Run::CreateSidecar),
        (c.sidecar || associated) && worker == BackendKind::OpenCode ==> run_of(
            c,
            worker,
            repo,
            associated,
            configured,
            existing,
            h,
        ) is Err,
        associated && (c.loop_workflow || c.continue_existing || c.request == "bootstrap"@ || (
        c.bootstrap_context is Some && !c.sidecar)) ==> run_of(
            c,
            worker,
            repo,
            associated,
            configured,
            existing,
            h,
        ) is Err,
        associated && worker != BackendKind::OpenCode && !c.loop_workflow && !c.continue_existing
            && c.request != "bootstrap"@ && c.bootstrap_context is None && configured && c.resume
            && !c.forget && !c.update_skills && !c.execute && !c.interactive ==> run_of(
            c,
            worker,
            repo,
            associated,
            configured,
            existing,
            h,
        ) == Ok::<Run, Seq<char>>(Run::Workflow(Launch::Resume)),
{
}

/// A new run begins from nothing with the request that was made. It has a campaign where a
/// loop is asked for, with the limit that was given, and stays local where that is asked
/// for. A run with a sidecar begins with its change to propose, and knows both places.
pub proof fn law_new_runs_begin_as_asked(
    c: CliView,
    s: SidecarView,
    before: Seq<(Seq<char>, Seq<char>)>,
)
    ensures
        begun(c, None, before) matches Ok(r) && {
            &&& r.campaign is Some == c.loop_workflow
            &&& r.campaign is Some ==> r.campaign->0.iteration == 1
                && r.campaign->0.max_iterations == c.max_iterations
                && r.campaign->0.completed.len() == 0
            &&& r.local_only == c.local_only
            &&& (RunStateView { campaign: None, local_only: false, ..r }) == new_state(
                c.request,
                before,
            )
        },
        begun(c, Some(s), before) is Ok <==> c.change is Some && valid_change_name(c.change->0),
        begun(c, Some(s), before) matches Ok(r) ==> {
            &&& r.change == c.change
            &&& r.stage == crate::stage::Stage::Propose
            &&& r.product_repo == Some(s.product_root)
            &&& r.sidecar_store == Some(s.store_id)
            &&& r.local_only
            &&& (RunStateView {
                change: None,
                stage: crate::stage::Stage::Explore,
                product_repo: None,
                sidecar_store: None,
                local_only: false,
                ..r
            }) == new_state(c.request, before)
        },
        begun(c, Some(s), before) matches Err(e) ==> (c.change is Some ==> crate::text::occurs_at(
            e,
            c.change->0,
            "OpenSpec returned unsafe change name `"@.len() as int,
        )),
{
    if c.change is Some {
        let head = "OpenSpec returned unsafe change name `"@;
        let e = head + c.change->0 + "`; expected lowercase kebab-case"@;
        assert(e.subrange(head.len() as int, head.len() as int + c.change->0.len()) =~= c.change->0);
    }
}

/// The dashboard shows the campaign of a run: its place, its limit, and every iteration that
/// is over, in order.
pub proof fn law_campaigns_are_shown_whole(c: CampaignView, i: int)
    ensures
        shown_campaign(None) is None,
        shown_campaign(Some(c)) matches Some(v) && {
            &&& v.iteration == c.iteration
            &&& v.max_iterations == c.max_iterations
            &&& v.completed.len() == c.completed.len()
            &&& 0 <= i < c.completed.len() ==> {
                &&& v.completed[i].iteration == c.completed[i].iteration
                &&& v.completed[i].change == c.completed[i].change
                &&& v.completed[i].final_head == c.completed[i].final_head
                &&& v.completed[i].elapsed_seconds == c.completed[i].elapsed_seconds
            }
        },
{
}

/// A run is local where that is asked for or there is a sidecar, and then says so last. Where
/// there is a sidecar, its name and place are said first, and nothing else is said.
pub proof fn law_local_runs_say_so(c: CliView, s: Option<SidecarView>)
    ensures
        local(c, s is Some) == (c.local_only || s is Some),
        opening(c, s).len() == (if s is Some {
            2int
        } else if c.local_only {
            1
        } else {
            0
        }),
        c.local_only || s is Some ==> opening(c, s).last() == EffectView::Info(
            "LOCAL-ONLY: frontier fallback is disabled"@,
        ),
        s is Some ==> (opening(c, s)[0] matches EffectView::Info(t) && crate::text::occurs_at(
            t,
            s->0.store_id,
            "Planning sidecar `"@.len() as int,
        ) && (s->0.planning_root + "`"@).is_suffix_of(t)),
{
    if s is Some {
        let head = "Planning sidecar `"@;
        let id = s->0.store_id;
        let t = head + id + "`: `"@ + s->0.planning_root + "`"@;
        assert(t.subrange(head.len() as int, head.len() as int + id.len()) =~= id);
        let tail = s->0.planning_root + "`"@;
        assert(t.subrange(t.len() - tail.len(), t.len() as int) =~= tail);
        assert(t == head + id + "`: `"@ + s->0.planning_root + "`"@);
    }
}

/// The connections of a workflow are said where one of them has a name. Those of a bootstrap
/// are always said, and name the planner and the worker that the campaign will have.
pub proof fn law_named_connections_are_said(
    worker: AgentView,
    frontier: Option<AgentView>,
    planner: AgentView,
    h: HarnessView,
)
    ensures
        connections(worker, frontier, h) is Some <==> worker.connection_name() is Some || (
        frontier is Some && frontier->0.connection_name() is Some),
        connections(worker, frontier, h) matches Some(t) ==> {
            &&& ("Connections: worker "@ + description(worker, h)).is_prefix_of(t)
            &&& frontier is Some ==> description(frontier->0, h).is_suffix_of(t)
            &&& frontier is None ==> t == "Connections: worker "@ + description(worker, h)
                + " (all model stages)"@
        },
        bootstrap_connections(planner, None, h) == "Bootstrap planner: "@ + description(planner, h),
        ("Connections: bootstrap/frontier "@ + description(planner, h)).is_prefix_of(
            bootstrap_connections(planner, Some(worker), h),
        ),
        (", campaign worker "@ + description(worker, h)).is_suffix_of(
            bootstrap_connections(planner, Some(worker), h),
        ),
{
    let a = "Connections: worker "@ + description(worker, h);
    if frontier is Some {
        let d = description(frontier->0, h);
        let t = a + ", frontier "@ + d;
        assert(t.subrange(0, a.len() as int) =~= a);
        assert(t.subrange(t.len() - d.len(), t.len() as int) =~= d);
    } else {
        let t = a + " (all model stages)"@;
        assert(t.subrange(0, a.len() as int) =~= a);
    }
    let b = "Connections: bootstrap/frontier "@ + description(planner, h);
    let d = ", campaign worker "@ + description(worker, h);
    let t = bootstrap_connections(planner, Some(worker), h);
    assert(t =~= b + d);
    assert(t.subrange(0, b.len() as int) =~= b);
    assert(t.subrange(t.len() - d.len(), t.len() as int) =~= d);
}

} // verus!
