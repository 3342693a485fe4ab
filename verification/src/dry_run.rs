//! What is shown in place of doing it, and the tests of a connection.
use crate::backend::StageProtocol;
use crate::claude_agent::{SkillCommands, SkillsView, CONNECTION_TEST_MARKER};
use crate::cli::{Cli, CliView};
use crate::effect::{effects0, effects1, effects2, push_effect, Effect, EffectView};
use crate::failure::{fail, failed, Failure};
use crate::names::Harness;
use crate::numeral::{decimal, decimal_text};
use crate::prompts::{campaign_subject, prompt_of, stage_prompt, subject_of, BOOTSTRAP_CHANGE};
use crate::stage::Stage;
use crate::state::{at_terminal_gate, is_terminal_gate, RunState, RunStateView};
use crate::table::{entry_names, names_of};
use crate::text::{
    cat2, cat3, cat4, cat5, debug_literal, debug_text, equal, join, joined, seen_all, str_option,
    text_option, texts, trim, trimmed,
};
use vstd::prelude::*;
use vstd::string::*;

verus! {

pub const NEW_DRY_RUN: &'static str =
    "DRY RUN — no workflow state or subprocesses will be created";

/// The first turn of a new run: what it is told, what it may answer, and what it is called.
pub struct FirstTurn {
    pub prompt: String,
    pub protocol: StageProtocol,
    pub label: &'static str,
}

/// The first turn of a new run.
pub fn first_turn(
    state: &RunState,
    commands: &SkillCommands,
    instructions: &str,
    harness: &Harness,
) -> (r: FirstTurn)
    ensures
        if state.stage == Stage::Propose {
            &&& r.protocol == StageProtocol::Propose
            &&& r.label@ == "Propose"@
            &&& r.prompt@ == prompt_of(
                commands@.propose,
                subject_of(state@, instructions@, harness@),
                StageProtocol::Propose,
            )
        } else {
            &&& r.protocol == StageProtocol::Worker
            &&& r.label@ == "Explore"@
            &&& r.prompt@ == prompt_of(
                commands@.explore,
                subject_of(state@, instructions@, harness@),
                StageProtocol::Worker,
            )
        },
{
    let subject = campaign_subject(state, instructions, harness);
    if state.stage == Stage::Propose {
        FirstTurn {
            prompt: stage_prompt(
                commands.propose.as_str(),
                subject.as_str(),
                StageProtocol::Propose,
            ),
            protocol: StageProtocol::Propose,
            label: "Propose",
        }
    } else {
        FirstTurn {
            prompt: stage_prompt(
                commands.explore.as_str(),
                subject.as_str(),
                StageProtocol::Worker,
            ),
            protocol: StageProtocol::Worker,
            label: "Explore",
        }
    }
}

pub const ACCEPTANCE_REVIEW: &'static str =
    "Frontier acceptance review: confirm readiness or commit bounded remediation slices before 9999";

pub const TERMINAL_ROUTING: &'static str =
    "Terminal routing: frontier Propose/Apply/repair/Verify; worker milestone commits/archive";

pub const PROPOSAL_COMMIT: &'static str =
    "Ask the worker agent in a fresh session to create the proposal milestone commit";

pub const COMPLETION_COMMIT: &'static str =
    "Ask the worker agent to create the completion milestone commit";

pub const STAYS_LOCAL: &'static str = "LOCAL-ONLY: stop on TOO_LARGE; never invoke frontier fallback";

/// What a dry run says of the start of a run, up to its proposal.
pub open spec fn start_lines(
    c: CliView,
    s: RunStateView,
    k: SkillsView,
    label: Seq<char>,
    command: Seq<char>,
    frontier: bool,
) -> Seq<EffectView> {
    let review = if at_terminal_gate(s) && frontier {
        seq![EffectView::Info(ACCEPTANCE_REVIEW@), EffectView::Info(TERMINAL_ROUTING@)]
    } else {
        Seq::empty()
    };
    let first = review.push(EffectView::Info(label + ": "@ + command));
    let explored = if s.stage == Stage::Explore {
        first.push(EffectView::Info("Hard compact the planning session after Explore"@)).push(
            EffectView::Info(
                "Propose in same session: "@ + k.propose
                    + " (READY, DONE, TOO_LARGE, or BLOCKED)"@,
            ),
        )
    } else {
        first
    };
    explored.push(
        if c.yolo {
            EffectView::Warn("YOLO mode: skip the proposal milestone commit"@)
        } else {
            EffectView::Info(PROPOSAL_COMMIT@)
        },
    )
}

/// How long a campaign goes on.
pub open spec fn limit_words(max: Option<u32>) -> Seq<char> {
    match max {
        None => "until the agenda or objective is complete"@,
        Some(n) => "until completion or "@ + decimal(n as nat) + " completed iterations"@,
    }
}

/// What a dry run says of the rest of a run.
pub open spec fn rest_lines(c: CliView, k: SkillsView, frontier: Option<Seq<char>>) -> Seq<
    EffectView,
> {
    let work = seq![
        EffectView::Info("Apply: "@ + k.apply),
        EffectView::Info("Verify/repair: "@ + k.verify + " / "@ + k.apply),
        EffectView::Info("Archive: "@ + k.archive),
        EffectView::Info(COMPLETION_COMMIT@),
    ];
    let fallback = work.push(
        EffectView::Info(
            match frontier {
                Some(program) => "Frontier fallback: "@ + program
                    + " after local TOO_LARGE or a "@ + decimal(
                    c.local_worker_timeout_minutes as nat,
                ) + " minute worker timeout"@,
                None => STAYS_LOCAL@,
            },
        ),
    );
    if c.loop_workflow {
        fallback.push(
            EffectView::Info(
                "Campaign: repeat the complete workflow "@ + limit_words(c.max_iterations)
                    + "; frontier-replan an oversized agenda slice, and stop on BLOCKED or an unrecoverable error"@,
            ),
        )
    } else {
        fallback
    }
}

/// What a dry run says of a new run.
pub open spec fn new_lines(
    c: CliView,
    s: RunStateView,
    k: SkillsView,
    label: Seq<char>,
    command: Seq<char>,
    frontier: Option<Seq<char>>,
) -> Seq<EffectView> {
    if s.stage == Stage::Done {
        seq![EffectView::Info("Advance: the ordered agenda is complete"@)]
    } else {
        start_lines(c, s, k, label, command, frontier is Some) + rest_lines(c, k, frontier)
    }
}

fn push_start(
    list: &mut Vec<Effect>,
    cli: &Cli,
    state: &RunState,
    commands: &SkillCommands,
    label: &str,
    command: &str,
    frontier: bool,
)
    requires
        seen_all(old(list)@) == Seq::<EffectView>::empty(),
    ensures
        seen_all(final(list)@) == start_lines(
            cli@,
            state@,
            commands@,
            label@,
            command@,
            frontier,
        ),
{
    if is_terminal_gate(state) && frontier {
        push_effect(list, Effect::Info(ACCEPTANCE_REVIEW.to_owned()));
        push_effect(list, Effect::Info(TERMINAL_ROUTING.to_owned()));
    }
    push_effect(list, Effect::Info(cat3(label, ": ", command)));
    if state.stage == Stage::Explore {
        push_effect(
            list,
            Effect::Info("Hard compact the planning session after Explore".to_owned()),
        );
        push_effect(
            list,
            Effect::Info(
                cat3(
                    "Propose in same session: ",
                    commands.propose.as_str(),
                    " (READY, DONE, TOO_LARGE, or BLOCKED)",
                ),
            ),
        );
    }
    if cli.yolo {
        push_effect(
            list,
            Effect::Warn("YOLO mode: skip the proposal milestone commit".to_owned()),
        );
    } else {
        push_effect(list, Effect::Info(PROPOSAL_COMMIT.to_owned()));
    }
    assert(seen_all(list@) =~= start_lines(cli@, state@, commands@, label@, command@, frontier));
}

fn push_rest(
    list: &mut Vec<Effect>,
    cli: &Cli,
    commands: &SkillCommands,
    frontier: Option<&str>,
)
    ensures
        seen_all(final(list)@) == seen_all(old(list)@) + rest_lines(
            cli@,
            commands@,
            str_option(frontier),
        ),
{
    let ghost before = seen_all(list@);
    push_effect(list, Effect::Info(cat2("Apply: ", commands.apply.as_str())));
    push_effect(
        list,
        Effect::Info(
            cat4("Verify/repair: ", commands.verify.as_str(), " / ", commands.apply.as_str()),
        ),
    );
    push_effect(list, Effect::Info(cat2("Archive: ", commands.archive.as_str())));
    push_effect(list, Effect::Info(COMPLETION_COMMIT.to_owned()));
    match frontier {
        Some(program) => {
            let minutes = decimal_text(cli.local_worker_timeout_minutes as u64);
            push_effect(
                list,
                Effect::Info(
                    cat5(
                        "Frontier fallback: ",
                        program,
                        " after local TOO_LARGE or a ",
                        minutes.as_str(),
                        " minute worker timeout",
                    ),
                ),
            );
        },
        None => {
            push_effect(list, Effect::Info(STAYS_LOCAL.to_owned()));
        },
    }
    if cli.loop_workflow {
        let limit = match cli.max_iterations {
            None => "until the agenda or objective is complete".to_owned(),
            Some(n) => {
                let number = decimal_text(n as u64);
                cat3("until completion or ", number.as_str(), " completed iterations")
            },
        };
        push_effect(
            list,
            Effect::Info(
                cat3(
                    "Campaign: repeat the complete workflow ",
                    limit.as_str(),
                    "; frontier-replan an oversized agenda slice, and stop on BLOCKED or an unrecoverable error",
                ),
            ),
        );
    }
    assert(seen_all(list@) =~= before + rest_lines(cli@, commands@, str_option(frontier)));
}

/// What a dry run says of a new run, whose state has been assigned. `command` is the command
/// of its first turn, and `frontier` the program of the frontier where it is used.
pub fn print_new_dry_run(
    cli: &Cli,
    state: &RunState,
    commands: &SkillCommands,
    label: &str,
    command: &str,
    frontier: Option<&str>,
) -> (r: Vec<Effect>)
    ensures
        seen_all(r@) == new_lines(
            cli@,
            state@,
            commands@,
            label@,
            command@,
            str_option(frontier),
        ),
{
    if state.stage == Stage::Done {
        return effects1(Effect::Info("Advance: the ordered agenda is complete".to_owned()));
    }
    let mut list = effects0();
    assert(seen_all(list@) =~= Seq::<EffectView>::empty());
    push_start(&mut list, cli, state, commands, label, command, frontier.is_some());
    push_rest(&mut list, cli, commands, frontier);
    list
}

/// The stage that a resumed run goes on with.
pub open spec fn next_stage(s: RunStateView, yolo: bool) -> Stage {
    if yolo && s.stage == Stage::ProposalCommit {
        Stage::Apply
    } else {
        s.stage
    }
}

pub const RESUMED_ROUTING: &'static str =
    "Terminal routing: frontier readiness review/Propose/Apply/repair/Verify; worker milestone commits/archive";

/// What a dry run says of a run that is resumed.
pub open spec fn resume_lines(s: RunStateView, k: SkillsView, yolo: bool) -> Seq<EffectView> {
    let next = next_stage(s, yolo);
    let a = seq![
        EffectView::Warn("DRY RUN — checkpoint and repository will not be changed"@),
        EffectView::Info("Next stage: "@ + next.name()),
    ];
    let b = if yolo && s.stage == Stage::ProposalCommit {
        a.push(
            EffectView::Warn("YOLO mode: the saved proposal commit stage would be skipped"@),
        )
    } else {
        a
    };
    let c = match s.campaign {
        Some(campaign) => b.push(
            EffectView::Info(
                "Campaign iteration "@ + decimal(campaign.iteration as nat) + "; "@ + decimal(
                    campaign.completed.len(),
                ) + " completed change(s); continue after this workflow"@,
            ),
        ),
        None => b,
    };
    let d = match s.pending_direction {
        Some(direction) => c.push(
            EffectView::Info("Pending one-shot direction: "@ + direction),
        ),
        None => c,
    };
    let e = if next == Stage::Apply || next == Stage::Repair || next == Stage::Verify {
        d.push(EffectView::Info("Implementation workflow: "@ + k.apply)).push(
            EffectView::Info("Verification workflow: "@ + k.verify),
        )
    } else {
        d
    };
    if at_terminal_gate(s) {
        e.push(EffectView::Info(RESUMED_ROUTING@))
    } else {
        e
    }
}

pub fn print_resume_dry_run(state: &RunState, commands: &SkillCommands, yolo: bool) -> (r: Vec<
    Effect,
>)
    ensures
        seen_all(r@) == resume_lines(state@, commands@, yolo),
{
    let skips = yolo && state.stage == Stage::ProposalCommit;
    let next = if skips {
        Stage::Apply
    } else {
        state.stage
    };
    let mut list = effects0();
    push_effect(
        &mut list,
        Effect::Warn("DRY RUN — checkpoint and repository will not be changed".to_owned()),
    );
    push_effect(&mut list, Effect::Info(cat2("Next stage: ", next.title())));
    if skips {
        push_effect(
            &mut list,
            Effect::Warn("YOLO mode: the saved proposal commit stage would be skipped".to_owned()),
        );
    }
    if let Some(campaign) = &state.campaign {
        let iteration = decimal_text(campaign.iteration as u64);
        let completed = decimal_text(campaign.completed.len() as u64);
        push_effect(
            &mut list,
            Effect::Info(
                cat5(
                    "Campaign iteration ",
                    iteration.as_str(),
                    "; ",
                    completed.as_str(),
                    " completed change(s); continue after this workflow",
                ),
            ),
        );
    }
    if let Some(direction) = &state.pending_direction {
        push_effect(
            &mut list,
            Effect::Info(cat2("Pending one-shot direction: ", direction.as_str())),
        );
    }
    if next == Stage::Apply || next == Stage::Repair || next == Stage::Verify {
        push_effect(
            &mut list,
            Effect::Info(cat2("Implementation workflow: ", commands.apply.as_str())),
        );
        push_effect(
            &mut list,
            Effect::Info(cat2("Verification workflow: ", commands.verify.as_str())),
        );
    }
    if is_terminal_gate(state) {
        push_effect(&mut list, Effect::Info(RESUMED_ROUTING.to_owned()));
    }
    assert(seen_all(list@) =~= resume_lines(state@, commands@, yolo));
    list
}

/// What a dry run says of the files that a bootstrap puts in place.
pub open spec fn file_lines(paths: Seq<Seq<char>>) -> Seq<EffectView> {
    paths.map_values(|p: Seq<char>| EffectView::Info("Create or update `"@ + p + "`"@))
}

/// What a dry run says of a bootstrap.
pub open spec fn bootstrap_lines(c: CliView, context: Seq<char>, init: Seq<char>, paths: Seq<Seq<char>>) -> Seq<
    EffectView,
> {
    let a = seq![
        EffectView::Warn("DRY RUN — bootstrap files and subprocesses will not be created"@),
        EffectView::Info("Project context: `"@ + context + "`"@),
    ];
    let b = if c.bootstrap_defines.len() > 0 {
        a.push(
            EffectView::Info(
                "Template variables: "@ + joined(names_of(c.bootstrap_defines), ", "@),
            ),
        )
    } else {
        a
    };
    let d = b.push(EffectView::Info("Initialize OpenSpec: "@ + init)) + file_lines(paths);
    let e = d.push(
        EffectView::Info(
            "Run `"@ + BOOTSTRAP_CHANGE@ + "` through Propose"@ + (if c.yolo {
                ""@
            } else {
                ", proposal commit"@
            })
                + ", Apply, Verify/repair, Archive, and completion commit on the frontier connection"@,
        ),
    ).push(
        EffectView::Info(
            "Require an ordered agenda ending at `automation/slices/9999-project-acceptance.md`"@,
        ),
    );
    if c.execute {
        e.push(
            EffectView::Info(
                "Then run the generated agenda as an advance campaign with the worker connection"@,
            ),
        )
    } else {
        e
    }
}

fn push_files(list: &mut Vec<Effect>, paths: &Vec<String>)
    ensures
        seen_all(final(list)@) == seen_all(old(list)@) + file_lines(texts(paths@)),
{
    let ghost before = seen_all(list@);
    let ghost all = file_lines(texts(paths@));
    let mut i: usize = 0;
    assert(before + all.take(0) =~= before);
    while i < paths.len()
        invariant
            i <= paths@.len(),
            all == file_lines(texts(paths@)),
            seen_all(list@) == before + all.take(i as int),
        decreases paths@.len() - i,
    {
        push_effect(
            list,
            Effect::Info(cat3("Create or update `", paths[i].as_str(), "`")),
        );
        assert(seen_all(list@) =~= before + all.take(i + 1));
        i += 1;
    }
    assert(all.take(i as int) =~= all);
}

/// What a dry run says of a bootstrap. `init` is the command that sets OpenSpec up.
pub fn bootstrap_dry_run(cli: &Cli, context: &str, init: &str, paths: &Vec<String>) -> (r: Vec<
    Effect,
>)
    ensures
        seen_all(r@) == bootstrap_lines(cli@, context@, init@, texts(paths@)),
{
    let mut list = effects0();
    push_effect(
        &mut list,
        Effect::Warn("DRY RUN — bootstrap files and subprocesses will not be created".to_owned()),
    );
    push_effect(&mut list, Effect::Info(cat3("Project context: `", context, "`")));
    if cli.bootstrap_defines.len() > 0 {
        let names = entry_names(&cli.bootstrap_defines);
        let text = join(&names, ", ");
        push_effect(&mut list, Effect::Info(cat2("Template variables: ", text.as_str())));
    }
    push_effect(&mut list, Effect::Info(cat2("Initialize OpenSpec: ", init)));
    push_files(&mut list, paths);
    let commit = if cli.yolo {
        ""
    } else {
        ", proposal commit"
    };
    push_effect(
        &mut list,
        Effect::Info(
            cat5(
                "Run `",
                BOOTSTRAP_CHANGE,
                "` through Propose",
                commit,
                ", Apply, Verify/repair, Archive, and completion commit on the frontier connection",
            ),
        ),
    );
    push_effect(
        &mut list,
        Effect::Info(
            "Require an ordered agenda ending at `automation/slices/9999-project-acceptance.md`".to_owned(),
        ),
    );
    if cli.execute {
        push_effect(
            &mut list,
            Effect::Info(
                "Then run the generated agenda as an advance campaign with the worker connection".to_owned(),
            ),
        );
    }
    assert(seen_all(list@) =~= bootstrap_lines(cli@, context@, init@, texts(paths@)));
    list
}

/// What an interactive session is opened with.
pub fn initial_prompt(cli: &Cli) -> (r: Option<String>)
    ensures
        text_option(r) == if cli.request@.len() == 0 {
            None
        } else {
            Some(cli.request@)
        },
{
    if cli.request.as_str().unicode_len() == 0 {
        None
    } else {
        Some(cli.request.as_str().to_owned())
    }
}

/// What a dry run says of an interactive session of a harness.
pub fn interactive_dry_run(harness: &str, command: &str) -> (r: Vec<Effect>)
    ensures
        seen_all(r@) == seq![
            EffectView::Warn("DRY RUN — interactive "@ + harness@ + " will not be launched"@),
            EffectView::Info(command@),
        ],
{
    effects2(
        Effect::Warn(cat3("DRY RUN — interactive ", harness, " will not be launched")),
        Effect::Info(command.to_owned()),
    )
}

/// What is said when a connection is tested, with the mode of the test where it has one.
pub open spec fn testing(harness: Seq<char>, connection: Seq<char>, mode: Option<Seq<char>>) -> Seq<
    char,
> {
    let line = "Testing "@ + harness + " connection "@ + connection;
    match mode {
        Some(m) => line + " ("@ + m + ")"@,
        None => line,
    }
}

pub fn testing_line(harness: &str, connection: &str, mode: Option<&str>) -> (r: String)
    ensures
        r@ == testing(harness@, connection@, str_option(mode)),
{
    let line = cat4("Testing ", harness, " connection ", connection);
    match mode {
        Some(m) => cat4(line.as_str(), " (", m, ")"),
        None => line,
    }
}

/// What a dry run says of the test of a connection.
pub fn test_dry_run(command: &str) -> (r: Vec<Effect>)
    ensures
        seen_all(r@) == seq![
            EffectView::Warn("DRY RUN — the connection test will not contact the model"@),
            EffectView::Info(command@),
        ],
{
    effects2(
        Effect::Warn("DRY RUN — the connection test will not contact the model".to_owned()),
        Effect::Info(command.to_owned()),
    )
}

/// What is said of the answer to the test of a connection, or why it is not right.
pub open spec fn judged(
    harness: Seq<char>,
    connection: Seq<char>,
    response: Seq<char>,
    verbose: bool,
) -> Result<Seq<EffectView>, Seq<char>> {
    if response != CONNECTION_TEST_MARKER@ {
        Err(
            harness
                + " transport succeeded, but response compatibility failed: expected exactly `"@
                + CONNECTION_TEST_MARKER@ + "`, received "@ + debug_literal(response),
        )
    } else {
        let line = EffectView::Success(
            "Connection "@ + connection + " responded successfully"@,
        );
        if verbose {
            Ok(seq![line, EffectView::Info("Model response: "@ + response)])
        } else {
            Ok(seq![line])
        }
    }
}

pub fn judge_answer(harness: &str, connection: &str, response: &str, verbose: bool) -> (r: Result<
    Vec<Effect>,
    Failure,
>)
    ensures
        match judged(harness@, connection@, response@, verbose) {
            Ok(lines) => r matches Ok(list) && seen_all(list@) == lines,
            Err(message) => failed(r, message),
        },
{
    if !equal(response, CONNECTION_TEST_MARKER) {
        let shown = debug_text(response);
        return fail(
            cat5(
                harness,
                " transport succeeded, but response compatibility failed: expected exactly `",
                CONNECTION_TEST_MARKER,
                "`, received ",
                shown.as_str(),
            ),
        );
    }
    let line = Effect::Success(cat3("Connection ", connection, " responded successfully"));
    if verbose {
        Ok(effects2(line, Effect::Info(cat2("Model response: ", response))))
    } else {
        Ok(effects1(line))
    }
}

/// What is said of the answer of Codex to the test of its connection: blanks around it do
/// not count.
pub fn judge_codex_answer(connection: &str, response: &str) -> (r: Result<Vec<Effect>, Failure>)
    ensures
        match judged("Codex"@, connection@, trimmed(response@), false) {
            Ok(lines) => r matches Ok(list) && seen_all(list@) == lines,
            Err(message) => failed(r, message),
        },
{
    let bare = trim(response);
    judge_answer("Codex", connection, bare.as_str(), false)
}

pub const BASIC_TEST: &'static str =
    "Connectivity test only. Do not inspect files or perform any other work. Return the required structured output with opsx_status READY and summary exactly ";

pub const AGENTIC_TEST: &'static str =
    "Codex provider compatibility test. Invoke the shell tool exactly once with the command `printf 'OPSX_TOOL_ROUNDTRIP_OK\\n'`. After receiving the tool result, return the required structured output with opsx_status READY and summary exactly ";

/// What Codex is asked when its connection is tested.
pub fn codex_test_prompt(basic: bool) -> (r: String)
    ensures
        r@ == if basic {
            BASIC_TEST@ + CONNECTION_TEST_MARKER@ + "."@
        } else {
            AGENTIC_TEST@ + CONNECTION_TEST_MARKER@
                + ". Do not inspect files or perform any other work."@
        },
{
    if basic {
        cat3(BASIC_TEST, CONNECTION_TEST_MARKER, ".")
    } else {
        cat3(
            AGENTIC_TEST,
            CONNECTION_TEST_MARKER,
            ". Do not inspect files or perform any other work.",
        )
    }
}

/// A dry run of a new run names what would be done: the first turn, the proposal commit
/// unless it is skipped, then the work with the commands of its stages and the completion
/// commit, and whether the frontier model is asked. It ends with the campaign, where there is
/// one. An agenda that is complete is told of and nothing else.
pub proof fn law_new_dry_runs_name_the_work(
    c: CliView,
    s: RunStateView,
    k: SkillsView,
    label: Seq<char>,
    command: Seq<char>,
    frontier: Option<Seq<char>>,
)
    ensures
        s.stage == Stage::Done ==> new_lines(c, s, k, label, command, frontier) == seq![
            EffectView::Info("Advance: the ordered agenda is complete"@),
        ],
        s.stage != Stage::Done ==> ({
            let r = new_lines(c, s, k, label, command, frontier);
            let reviewed: int = if at_terminal_gate(s) && frontier is Some {
                2
            } else {
                0
            };
            let explored: int = if s.stage == Stage::Explore {
                2
            } else {
                0
            };
            let commit = reviewed + explored + 1;
            &&& r[reviewed] == EffectView::Info(label + ": "@ + command)
            &&& r[commit] == (if c.yolo {
                EffectView::Warn("YOLO mode: skip the proposal milestone commit"@)
            } else {
                EffectView::Info(PROPOSAL_COMMIT@)
            })
            &&& r[commit + 1] == EffectView::Info("Apply: "@ + k.apply)
            &&& r[commit + 2] == EffectView::Info("Verify/repair: "@ + k.verify + " / "@ + k.apply)
            &&& r[commit + 3] == EffectView::Info("Archive: "@ + k.archive)
            &&& r[commit + 4] == EffectView::Info(COMPLETION_COMMIT@)
            &&& frontier is None ==> r[commit + 5] == EffectView::Info(STAYS_LOCAL@)
            &&& frontier matches Some(program) ==> (r[commit + 5] matches EffectView::Info(t)
                && ("Frontier fallback: "@ + program).is_prefix_of(t))
            &&& r.len() == commit + 6 + (if c.loop_workflow {
                1int
            } else {
                0
            })
            &&& at_terminal_gate(s) && frontier is Some ==> r[0] == EffectView::Info(
                ACCEPTANCE_REVIEW@,
            )
        }),
        c.max_iterations is None ==> limit_words(c.max_iterations)
            == "until the agenda or objective is complete"@,
        c.max_iterations matches Some(n) ==> ("until completion or "@ + decimal(
            n as nat,
        )).is_prefix_of(limit_words(c.max_iterations)),
{
    if frontier is Some {
        let a = "Frontier fallback: "@ + frontier->0;
        let t = a + " after local TOO_LARGE or a "@ + decimal(
            c.local_worker_timeout_minutes as nat,
        ) + " minute worker timeout"@;
        assert(t.subrange(0, a.len() as int) =~= a);
    }
    if c.max_iterations is Some {
        let a = "until completion or "@ + decimal(c.max_iterations->0 as nat);
        assert(limit_words(c.max_iterations).subrange(0, a.len() as int) =~= a);
    }
}

/// A dry run of a run that is resumed says that nothing is changed, names the stage that it
/// goes on with, and hands the direction on word for word. The proposal commit is passed over
/// where it is to be skipped.
pub proof fn law_resumed_dry_runs_name_the_next_stage(s: RunStateView, k: SkillsView, yolo: bool)
    ensures
        yolo && s.stage == Stage::ProposalCommit ==> next_stage(s, yolo) == Stage::Apply,
        !(yolo && s.stage == Stage::ProposalCommit) ==> next_stage(s, yolo) == s.stage,
        ({
            let r = resume_lines(s, k, yolo);
            let skipped: int = if yolo && s.stage == Stage::ProposalCommit {
                1
            } else {
                0
            };
            let loops: int = if s.campaign is Some {
                1
            } else {
                0
            };
            let directed: int = if s.pending_direction is Some {
                1
            } else {
                0
            };
            let next = next_stage(s, yolo);
            let works: int = if next == Stage::Apply || next == Stage::Repair || next
                == Stage::Verify {
                2
            } else {
                0
            };
            &&& r[0] == EffectView::Warn(
                "DRY RUN — checkpoint and repository will not be changed"@,
            )
            &&& r[1] == EffectView::Info("Next stage: "@ + next.name())
            &&& s.pending_direction matches Some(d) ==> r[2 + skipped + loops] == EffectView::Info(
                "Pending one-shot direction: "@ + d,
            )
            &&& works == 2 ==> r[2 + skipped + loops + directed] == EffectView::Info(
                "Implementation workflow: "@ + k.apply,
            ) && r[3 + skipped + loops + directed] == EffectView::Info(
                "Verification workflow: "@ + k.verify,
            )
            &&& r.len() == 2 + skipped + loops + directed + works + (if at_terminal_gate(s) {
                1int
            } else {
                0
            })
        }),
{
}

/// A dry run of a bootstrap says that nothing is created, and names its context and every
/// file that would be put in place.
pub proof fn law_bootstrap_dry_runs_name_the_files(
    c: CliView,
    context: Seq<char>,
    init: Seq<char>,
    paths: Seq<Seq<char>>,
    i: int,
)
    ensures
        ({
            let r = bootstrap_lines(c, context, init, paths);
            let defined: int = if c.bootstrap_defines.len() > 0 {
                1
            } else {
                0
            };
            &&& r[0] == EffectView::Warn(
                "DRY RUN — bootstrap files and subprocesses will not be created"@,
            )
            &&& r[1] == EffectView::Info("Project context: `"@ + context + "`"@)
            &&& r[2 + defined] == EffectView::Info("Initialize OpenSpec: "@ + init)
            &&& 0 <= i < paths.len() ==> r[3 + defined + i] == EffectView::Info(
                "Create or update `"@ + paths[i] + "`"@,
            )
            &&& r.len() == 5 + defined + paths.len() + (if c.execute {
                1int
            } else {
                0
            })
        }),
{
}

} // verus!
