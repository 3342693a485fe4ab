use opsx_build::assignment::{assign_agenda, assign_requested_change, continue_existing, resume};
use opsx_build::agenda::{AgendaAssignment, AgendaSelection};
use opsx_build::backend::{AgentError, StageResult, StageSignal};
use opsx_build::claude_agent::{ClaudeLauncher, SkillCommands};
use opsx_build::cli::{BackendKind, Cli, CliArgs, FileConfig};
use opsx_build::dry_run::{
    bootstrap_dry_run, codex_test_prompt, first_turn, initial_prompt, interactive_dry_run,
    judge_answer, judge_codex_answer, print_new_dry_run, print_resume_dry_run, test_dry_run,
    testing_line,
};
use opsx_build::effect::Effect;
use opsx_build::git::{
    baseline_diffs, baseline_matches_except, capture_slice_baseline, check_rollback, current_head,
    recovery_reference, reset_to_slice_baseline, untracked_paths, Comparison, RollbackAction,
    SliceBaseline,
};
use opsx_build::launcher::{
    connection_description, launcher_prerequisites, AgentLauncher, OpenCodeLauncher,
};
use opsx_build::names::Harness;
use opsx_build::openspec::ChangeSnapshot;
use opsx_build::process::{shell_quote, CommandSpec, ProcessOutput};
use opsx_build::stage::Stage;
use opsx_build::stages::{apply_result, verify_result};
use opsx_build::startup::{
    begin_bootstrap, begin_run, connections_line, opening_effects, plan_run, planning_repository,
    App, Launch, RepositoryFacts, Run, SidecarAssociation,
};
use opsx_build::state::RunState;
use opsx_build::upkeep::{
    agrees, forget_effect, hard_reset, rewind_dry_run, rewind_effects, rewind_notice, rewind_prompt,
    rewind_revision, rewind_step, skills_summary, synchronize_skills, uses_codex, InstalledSkill,
    RewindStep, SkillInstallAction,
};
use opsx_build::workflow::{record_iteration, short_hash};

fn harness() -> Harness {
    Harness { title: "Agent".to_owned(), name: "agent".to_owned() }
}

fn no_changes() -> ChangeSnapshot {
    ChangeSnapshot { changes: vec![] }
}

fn cli(args: CliArgs) -> Cli {
    Cli::load(&args, &FileConfig::default(), None, &harness()).unwrap()
}

fn request(text: &str) -> CliArgs {
    CliArgs { request: Some(text.to_owned()), ..CliArgs::default() }
}

fn facts() -> RepositoryFacts {
    RepositoryFacts {
        repo: "/repo".to_owned(),
        associated: false,
        configured: true,
        existing: None,
    }
}

fn sidecar() -> SidecarAssociation {
    SidecarAssociation {
        product_root: "/src/ceph".to_owned(),
        planning_root: "/stores/ceph".to_owned(),
        store_id: "opsx-ceph".to_owned(),
    }
}

fn lines(effects: &[Effect]) -> Vec<String> {
    effects
        .iter()
        .map(|effect| match effect {
            Effect::Info(s) | Effect::Warn(s) | Effect::Success(s) => s.clone(),
            other => format!("{other:?}"),
        })
        .collect()
}

fn commands() -> SkillCommands {
    SkillCommands {
        explore: "/explore".to_owned(),
        propose: "/propose".to_owned(),
        apply: "/apply".to_owned(),
        verify: "/verify".to_owned(),
        archive: "/archive".to_owned(),
    }
}

fn worker() -> AgentLauncher {
    AgentLauncher::Claude(ClaudeLauncher::parse("agent", None, None, None, None, &harness()).unwrap())
}

fn answer(signal: StageSignal, text: &str) -> StageResult {
    StageResult { signal, text: text.to_owned(), session_id: None }
}

#[test]
fn a_run_comes_to_what_was_asked_for() {
    let route = |args: CliArgs| plan_run(&cli(args), &facts(), &harness()).unwrap();
    assert_eq!(route(request("rewind")), Run::Rewind);
    assert_eq!(route(CliArgs { forget: true, ..CliArgs::default() }), Run::Forget);
    assert_eq!(route(CliArgs { update_skills: true, ..CliArgs::default() }), Run::UpdateSkills);
    assert_eq!(route(CliArgs { interactive: true, ..CliArgs::default() }), Run::Interactive);
    assert_eq!(route(request("bootstrap")), Run::Bootstrap);
    assert_eq!(route(request("execute")), Run::Bootstrap);
    assert_eq!(
        route(CliArgs { resume: true, ..CliArgs::default() }),
        Run::Workflow(Launch::Resume)
    );
    assert_eq!(
        route(CliArgs { dry_run: true, ..request("advance") }),
        Run::Workflow(Launch::DryRun)
    );
    assert_eq!(route(request("advance")), Run::Workflow(Launch::New));
    let error = plan_run(
        &cli(request("advance")),
        &RepositoryFacts { configured: false, ..facts() },
        &harness(),
    )
    .unwrap_err();
    assert_eq!(
        error.message,
        "no OpenSpec setup found at `/repo`; expected `openspec/config.yaml`"
    );
}

#[test]
fn an_unfinished_run_is_kept() {
    let mut state = RunState::new("advance".to_owned(), no_changes());
    state.stage = Stage::Apply;
    let found = RepositoryFacts { existing: Some(state.clone()), ..facts() };
    let error = plan_run(&cli(request("advance")), &found, &harness()).unwrap_err();
    assert!(error.message.contains("use `--resume` or `--forget`"));
    state.stage = Stage::Done;
    let found = RepositoryFacts { existing: Some(state), ..facts() };
    assert_eq!(plan_run(&cli(request("advance")), &found, &harness()).unwrap(), Run::Workflow(Launch::New));
}

#[test]
fn sidecars_carry_one_bounded_change() {
    let bounded = || CliArgs {
        sidecar: true,
        change: Some("ceph-fix".to_owned()),
        ..request("fix it")
    };
    let created = CliArgs { context: Some("c.md".to_owned()), ..bounded() };
    assert_eq!(plan_run(&cli(created), &facts(), &harness()).unwrap(), Run::CreateSidecar);
    assert!(plan_run(&cli(bounded()), &facts(), &harness())
        .unwrap_err()
        .message
        .contains("requires --context PATH"));
    let known = RepositoryFacts { associated: true, ..facts() };
    assert!(plan_run(&cli(CliArgs { loop_workflow: true, ..request("x") }), &known, &harness()).is_err());
    assert!(plan_run(&cli(request("bootstrap")), &known, &harness()).is_err());
    let mut open = cli(bounded());
    open.worker_connection.backend = BackendKind::OpenCode;
    assert!(plan_run(&open, &known, &harness()).unwrap_err().message.contains("OpenCode"));
    let state = begin_run(&cli(bounded()), Some(&sidecar()), no_changes()).unwrap();
    assert!(state.local_only);
    assert_eq!(state.stage, Stage::Propose);
    assert_eq!(state.product_repo.as_deref(), Some("/src/ceph"));
    assert!(begin_run(&cli(request("x")), Some(&sidecar()), no_changes())
        .unwrap_err()
        .message
        .contains("requires --change NAME"));
    assert_eq!(planning_repository("/src", Some(&sidecar())), "/stores/ceph");
    assert_eq!(
        lines(&opening_effects(&cli(request("x")), Some(&sidecar()))),
        [
            "Planning sidecar `opsx-ceph`: `/stores/ceph`",
            "LOCAL-ONLY: frontier fallback is disabled"
        ]
    );
}

#[test]
fn new_runs_begin_at_exploration() {
    let state =
        begin_run(&cli(CliArgs { loop_workflow: true, ..request("x") }), None, no_changes())
            .unwrap();
    assert_eq!(state.stage, Stage::Explore);
    assert_eq!(state.campaign.unwrap().iteration, 1);
    let state = begin_bootstrap(&cli(request("execute")), no_changes(), "do it");
    assert!(state.bootstrap);
    assert_eq!(state.agenda.unwrap().content, "do it");
    assert!(state.campaign.is_some());
}

#[test]
fn connections_are_described() {
    let mut launcher = ClaudeLauncher::parse("agent", None, None, None, None, &harness()).unwrap();
    assert_eq!(
        connection_description(&AgentLauncher::Claude(launcher.clone()), &harness()),
        "`default` (agent, harness default model)"
    );
    assert_eq!(connections_line(&worker(), None, &harness()), None);
    launcher.connection_name = Some("hosted".to_owned());
    launcher.environment_name = Some("provider".to_owned());
    launcher.model = Some("m".to_owned());
    let hosted = AgentLauncher::Claude(launcher);
    assert_eq!(
        connection_description(&hosted, &harness()),
        "`hosted` (agent, m, environment `provider`)"
    );
    assert_eq!(
        connections_line(&worker(), Some(&hosted), &harness()).unwrap(),
        "Connections: worker `default` (agent, harness default model), frontier `hosted` (agent, m, environment `provider`)"
    );
    let open = AgentLauncher::OpenCode(OpenCodeLauncher {
        connection_name: None,
        environment_name: None,
        program: "opencode".to_owned(),
        prefix_args: vec![],
        model: None,
    });
    assert_eq!(launcher_prerequisites(&open, &harness()), ["opencode"]);
    let wrapped =
        AgentLauncher::Claude(ClaudeLauncher::parse("omlx launch", None, None, None, None, &harness()).unwrap());
    assert_eq!(launcher_prerequisites(&wrapped, &harness()), ["omlx", "agent"]);
    assert_eq!(launcher_prerequisites(&worker(), &harness()), ["agent"]);
}

#[test]
fn a_pause_is_no_failure() {
    let app = App::new(cli(request("advance")));
    let (effects, ended) = app.run(Err(AgentError::Pause), "opsx-build --resume");
    assert!(ended.is_ok());
    assert_eq!(lines(&effects)[2], "Resume with: opsx-build --resume");
    let (effects, ended) = app.run(Err(AgentError::Other { message: "no".to_owned() }), "x");
    assert!(effects.is_empty() && ended.is_err());
}

#[test]
fn upkeep_says_what_it_did() {
    let skills = vec![InstalledSkill {
        name: "apply-unattended".to_owned(),
        action: SkillInstallAction::WouldUpdate,
    }];
    assert_eq!(
        lines(&synchronize_skills(&skills, true, true)),
        [
            "Would update bundled agent skill `apply-unattended` in target repository",
            "Would add the opsx-build managed guidance to AGENTS.md for Codex"
        ]
    );
    assert_eq!(skills_summary(2, true), "DRY RUN — 2 bundled skill file(s) would change");
    assert_eq!(skills_summary(0, false), "Bundled unattended skills are already current");
    assert_eq!(skills_summary(3, false), "Updated 3 bundled unattended skill file(s)");
    assert!(!uses_codex(&cli(request("advance"))));
    assert!(matches!(forget_effect(true, true), Effect::Warn(_)));
    assert!(matches!(forget_effect(false, true), Effect::Success(_)));
    assert!(matches!(forget_effect(false, false), Effect::Info(_)));
}

#[test]
fn rewinding_asks_first() {
    let target = "0123456789abcdef0123";
    assert_eq!(rewind_revision(&cli(request("rewind"))).unwrap(), "post-bootstrap");
    assert!(rewind_revision(&cli(request("advance"))).is_err());
    assert_eq!(rewind_step(false, false, true, None).unwrap(), RewindStep::Ask);
    assert_eq!(rewind_step(false, true, false, None).unwrap(), RewindStep::Reset);
    assert!(rewind_step(false, false, false, None).is_err());
    assert_eq!(rewind_step(true, true, true, Some("y")).unwrap(), RewindStep::Preview);
    assert_eq!(rewind_step(false, false, true, Some("yes\n")).unwrap(), RewindStep::Reset);
    assert_eq!(rewind_step(false, false, true, Some("\n")).unwrap(), RewindStep::Cancel);
    assert!(agrees(" Y \n") && agrees("yes") && !agrees("") && !agrees("no"));
    assert_eq!(
        rewind_prompt("tag", target),
        "Rewind this repository to `tag` (0123456789ab)? [y/N] "
    );
    assert_eq!(
        lines(&rewind_notice("tag", target))[0],
        "Rewind target `tag` resolves to 0123456789ab"
    );
    assert_eq!(lines(&rewind_dry_run(target))[1], "Would run: git reset --hard 0123456789ab");
    assert_eq!(hard_reset("/r", target).args, ["reset", "--hard", target]);
    assert_eq!(
        lines(&rewind_effects("/my repo", "tag", target, Some("ffff"), 2)),
        [
            "Rewound tracked repository state to `tag` (0123456789ab)",
            "Previous HEAD was ffff; it remains recoverable through Git's reflog",
            "Preserved 2 untracked path(s); inspect them before restarting",
            "Restart with: opsx-build --repo '/my repo' --loop advance"
        ]
    );
    assert_eq!(lines(&rewind_effects("/r", "tag", target, Some(target), 0)).len(), 2);
}

#[test]
fn dry_runs_show_the_whole_workflow() {
    let asked = cli(CliArgs { loop_workflow: true, dry_run: true, ..request("build it") });
    let state = begin_run(&asked, None, no_changes()).unwrap();
    let turn = first_turn(&state, &commands(), "", &harness());
    assert_eq!(turn.label, "Explore");
    assert!(turn.prompt.starts_with("/explore"));
    let shown =
        lines(&print_new_dry_run(&asked, &state, &commands(), turn.label, "CMD", Some("front")));
    assert_eq!(shown[0], "Explore: CMD");
    assert!(shown.contains(&"Verify/repair: /verify / /apply".to_owned()));
    assert!(shown.contains(
        &"Frontier fallback: front after local TOO_LARGE or a 60 minute worker timeout".to_owned()
    ));
    assert!(shown.last().unwrap().contains("until the agenda or objective is complete"));
    let local = lines(&print_new_dry_run(&asked, &state, &commands(), "Explore", "CMD", None));
    assert!(local.iter().any(|line| line.starts_with("LOCAL-ONLY")));

    let mut saved = RunState::continue_existing("x".to_owned(), no_changes());
    saved.pending_direction = Some("keep it".to_owned());
    let shown = lines(&print_resume_dry_run(&saved, &commands(), true));
    assert!(shown.contains(&"Pending one-shot direction: keep it".to_owned()));
    assert!(shown.contains(&"Implementation workflow: /apply".to_owned()));
    let boot = cli(CliArgs { define: vec!["a=1".to_owned()], ..request("execute") });
    let shown = lines(&bootstrap_dry_run(&boot, "c.md", "INIT", &vec!["f".to_owned()]));
    assert!(shown.contains(&"Template variables: a".to_owned()));
    assert!(shown.contains(&"Create or update `f`".to_owned()));
    assert!(shown.last().unwrap().contains("advance campaign"));
}

#[test]
fn connection_tests_expect_the_marker() {
    assert_eq!(testing_line("Codex", "`x`", None), "Testing Codex connection `x`");
    assert_eq!(testing_line("Agent", "`x`", Some("basic")), "Testing Agent connection `x` (basic)");
    assert_eq!(lines(&test_dry_run("CMD"))[1], "CMD");
    assert_eq!(
        lines(&interactive_dry_run("Codex", "CMD"))[0],
        "DRY RUN — interactive Codex will not be launched"
    );
    assert_eq!(
        lines(&judge_answer("Agent", "`x`", "OPSX_CONNECTION_OK", true).unwrap()),
        ["Connection `x` responded successfully", "Model response: OPSX_CONNECTION_OK"]
    );
    assert_eq!(
        judge_answer("Agent", "`x`", "a \"quoted\"\nline", false).unwrap_err().message,
        "Agent transport succeeded, but response compatibility failed: expected exactly `OPSX_CONNECTION_OK`, received \"a \\\"quoted\\\"\\nline\""
    );
    assert!(judge_codex_answer("`x`", " OPSX_CONNECTION_OK\n").is_ok());
    assert!(codex_test_prompt(true).ends_with("OPSX_CONNECTION_OK."));
    assert!(codex_test_prompt(false).contains("OPSX_TOOL_ROUNDTRIP_OK"));
    assert_eq!(initial_prompt(&cli(CliArgs { interactive: true, ..CliArgs::default() })), None);
}

#[test]
fn requested_changes_and_agendas_are_assigned() {
    let mut state = RunState::new("x".to_owned(), no_changes());
    assert!(assign_requested_change(&mut state, Some("fix-it")).result.is_ok());
    assert_eq!(state.change.as_deref(), Some("fix-it"));
    assert!(assign_requested_change(&mut state, Some("../x")).result.is_err());
    let mut state = RunState::new("advance".to_owned(), no_changes());
    assert!(assign_agenda(&mut state, Ok(AgendaSelection::Absent), false, false)
        .result
        .is_err());
    let next = AgendaAssignment {
        path: "automation/slices/0001-a.md".to_owned(),
        change: "0001-a".to_owned(),
        title: "A".to_owned(),
        content: "# A".to_owned(),
    };
    let chosen = Ok(AgendaSelection::Next(next));
    assert!(assign_agenda(&mut state, chosen, false, false).result.is_ok());
    assert_eq!(state.stage, Stage::Propose);
    assert_eq!(state.change.as_deref(), Some("0001-a"));
    assert!(assign_agenda(&mut state, Ok(AgendaSelection::Complete), false, false)
        .result
        .is_ok());
    assert_eq!(state.stage, Stage::Done);
    let (state, _) = continue_existing("a-b".to_owned(), no_changes(), true).unwrap();
    assert_eq!(state.stage, Stage::Apply);
    let mut state = RunState::new("x".to_owned(), no_changes());
    assert!(resume(&mut state, "other", false, None).result.is_err());
    assert!(resume(&mut state, "x", false, None).result.is_ok());
}

#[test]
fn stages_follow_their_answers() {
    let mut state = RunState::continue_existing("a".to_owned(), no_changes());
    state.stage = Stage::Apply;
    assert!(apply_result(&mut state, Ok(answer(StageSignal::Ready, "done"))).result.is_ok());
    assert_eq!(state.stage, Stage::Verify);
    let step = verify_result(
        &mut state,
        Ok(answer(StageSignal::Retry, "a test fails")),
        None,
        3,
        false,
    );
    assert!(step.result.is_ok());
    assert_eq!(state.stage, Stage::Repair);
    assert_eq!(state.pending_repair.as_deref(), Some("a test fails"));
    let mut state = RunState::continue_existing("a".to_owned(), no_changes());
    state.stage = Stage::Apply;
    assert!(apply_result(&mut state, Ok(answer(StageSignal::Blocked, "no"))).result.is_err());
    assert_eq!(state.stage, Stage::Apply);
}

#[test]
fn completed_iterations_are_recorded_once() {
    let mut state = RunState::new_campaign("advance".to_owned(), no_changes(), None);
    state.change = Some("0001-a".to_owned());
    state.stage = Stage::Complete;
    assert!(record_iteration(&mut state, Some(5)).result.is_ok());
    assert!(record_iteration(&mut state, Some(9)).result.is_ok());
    let campaign = state.campaign.unwrap();
    assert_eq!(campaign.completed.len(), 1);
    assert_eq!(campaign.completed[0].elapsed_seconds, Some(5));
    assert_eq!(short_hash("0123456789abcdef"), "0123456789ab");
    assert_eq!(short_hash("abc"), "abc");
}

#[test]
fn commands_are_shown_as_a_shell_reads_them() {
    let command = CommandSpec::new("git", "/r").arg("commit").arg("-m").arg("it's done");
    assert_eq!(command.display(), format!("git commit -m {}", shell_quote("it's done")));
    let secret = CommandSpec::new("x", "/r").secret_env("TOKEN", "hidden");
    assert!(!secret.display().contains("hidden"));
}

fn printed(stdout: &str) -> ProcessOutput {
    ProcessOutput { success: true, code: Some(0), stdout: stdout.to_owned(), stderr: String::new() }
}

#[test]
fn git_answers_are_read() {
    assert_eq!(current_head(&printed("abc\n")).as_deref(), Some("abc"));
    let failed = ProcessOutput { success: false, ..printed("") };
    assert_eq!(current_head(&failed), None);
    assert_eq!(untracked_paths(&printed("b\0a\0")).len(), 2);
}

fn baseline() -> SliceBaseline {
    SliceBaseline {
        head: "0123456789abcdef".to_owned(),
        tracked_stash: Some("feed".to_owned()),
        untracked: vec!["notes.txt".to_owned()],
        status: " M tracked.txt".to_owned(),
        snapshot_id: "id".to_owned(),
    }
}

#[test]
fn rollback_restores_a_dirty_baseline_and_preserves_failed_commits() {
    let captured = capture_slice_baseline(
        Some("0123456789abcdef".to_owned()),
        &printed("feed\n"),
        vec!["notes.txt".to_owned()],
        " M tracked.txt".to_owned(),
        "id".to_owned(),
    )
    .unwrap();
    assert_eq!(captured.head, "0123456789abcdef");
    assert_eq!(captured.tracked_stash.as_deref(), Some("feed"));
    assert!(capture_slice_baseline(
        None,
        &printed(""),
        vec![],
        String::new(),
        "id".to_owned()
    )
    .is_err());

    let current = vec!["notes.txt".to_owned(), "scratch.tmp".to_owned()];
    let plan = reset_to_slice_baseline("/repo", &baseline(), &current).unwrap();
    let words: Vec<String> = plan
        .iter()
        .map(|action| match action {
            RollbackAction::Run(command) => command.display(),
            RollbackAction::Restore(path) => format!("restore {path}"),
            RollbackAction::Refuse(message) => message.clone(),
        })
        .collect();
    assert!(words.iter().any(|w| w.contains("reset") && w.contains("0123456789abcdef")));
    assert!(words.iter().any(|w| w == "restore notes.txt"));
    assert!(words.iter().any(|w| w.contains("scratch.tmp")));
    let outside = vec!["../scratch.tmp".to_owned()];
    assert!(reset_to_slice_baseline("/repo", &baseline(), &outside).is_err());
    assert!(check_rollback(&baseline(), " M tracked.txt", true, "/d").is_ok());
    assert!(check_rollback(&baseline(), "", true, "/d").is_err());
    assert!(check_rollback(&baseline(), " M tracked.txt", false, "/d").is_err());
    assert!(recovery_reference(Some("feed"), "0123456789abcdef", "r").is_some());
    assert!(recovery_reference(Some("0123456789abcdef"), "0123456789abcdef", "r").is_none());
}

#[test]
fn frontier_comparison_allows_agenda_commits_but_detects_changed_user_edits() {
    let current = vec!["automation/slices/0010-x.md".to_owned(), "notes.txt".to_owned()];
    let same = |worktree: bool, list: &Vec<String>| {
        baseline_matches_except(&baseline(), worktree, true, list, Some("automation/slices/"))
    };
    assert!(matches!(same(true, &current), Comparison::Files(paths) if paths == ["notes.txt"]));
    assert!(matches!(same(false, &current), Comparison::Differs));
    let more = vec!["notes.txt".to_owned(), "other.txt".to_owned()];
    assert!(matches!(same(true, &more), Comparison::Differs));
    let (worktree, index) = baseline_diffs("/repo", &baseline(), Some("automation/slices/"));
    assert!(worktree.args.iter().any(|arg| arg.contains("feed")));
    assert_ne!(worktree.args, index.args);
}
