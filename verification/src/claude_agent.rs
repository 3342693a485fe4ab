//! The default harness: how it is started for a stage, and how its output is read.
use crate::backend::{
    last_signal, parse_status_value, parse_terminal_signal, read_structured_signal, status_signal,
    structured_signal, SessionId, SessionMode, SessionModeView, StageProtocol, StageResult,
    StageSignal,
};
use crate::cli::{AgentConnection, Cli};
use crate::effect::ResultView;
use crate::failure::{fail, failed, outcome, Failure};
use crate::json::{
    as_bool, as_items, as_text, bool_in, collect_texts, get_in, items_in, member, member_of,
    parse_json, parsed_json, target, text_in, texts_under, Json,
};
use crate::launch::{
    bad_variable, command_words, given, in_environment, resolve_environment, split_command,
    validate_environment_name, with_environment, LauncherEnvironment, VariableView,
};
use crate::cli::template_name;
use crate::names::{Harness, HarnessView};
use crate::numeral::{decimal, decimal_text, signed_decimal, signed_text};
use crate::process::{
    bare_command, diagnostic, diagnostic_text, stream_user_message, user_message, CommandSpec,
    CommandView, ProcessOutput,
};
use crate::prompts::{prompt_of, stage_prompt};
use crate::stream::StreamFilter;
use crate::table::named;
use crate::text::{
    append_all, cat2, cat3, cat4, cat5, chars_of, contains, contains_text, copy_all, copy_option,
    equal, holds, lines, lines_of, lowered, push_text, seen_all, starts, starts_with, str_option,
    text_option, texts, to_lower, trim, trimmed,
};
use vstd::prelude::*;
use vstd::string::*;

verus! {

pub const AUTO_COMPACT_ENV: &'static str = "CLAUDE_CODE_AUTO_COMPACT_WINDOW";

pub const AUTO_COMPACT_PERCENT_ENV: &'static str = "CLAUDE_AUTOCOMPACT_PCT_OVERRIDE";

pub const MAX_OUTPUT_TOKENS_ENV: &'static str = "CLAUDE_CODE_MAX_OUTPUT_TOKENS";

/// What a connection that works answers with.
pub const CONNECTION_TEST_MARKER: &'static str = "OPSX_CONNECTION_OK";

/// The variables that reach the harness's service, and that an isolated connection does
/// not inherit.
pub open spec fn connection_variables() -> Seq<Seq<char>> {
    seq![
        "ANTHROPIC_API_KEY"@,
        "ANTHROPIC_AWS_BASE_URL"@,
        "ANTHROPIC_AUTH_TOKEN"@,
        "ANTHROPIC_BASE_URL"@,
        "ANTHROPIC_BEDROCK_BASE_URL"@,
        "ANTHROPIC_BEDROCK_MANTLE_BASE_URL"@,
        "ANTHROPIC_CUSTOM_HEADERS"@,
        "ANTHROPIC_FOUNDRY_BASE_URL"@,
        "ANTHROPIC_VERTEX_BASE_URL"@,
        "CLAUDE_CODE_OAUTH_TOKEN"@,
        "CLAUDE_CODE_USE_ANTHROPIC_AWS"@,
        "CLAUDE_CODE_USE_BEDROCK"@,
        "CLAUDE_CODE_USE_FOUNDRY"@,
        "CLAUDE_CODE_USE_MANTLE"@,
        "CLAUDE_CODE_USE_VERTEX"@,
    ]
}

fn push_connection_variables(list: &mut Vec<String>)
    ensures
        texts(final(list)@) == texts(old(list)@) + connection_variables(),
{
    let ghost was = texts(list@);
    push_text(list, "ANTHROPIC_API_KEY");
    push_text(list, "ANTHROPIC_AWS_BASE_URL");
    push_text(list, "ANTHROPIC_AUTH_TOKEN");
    push_text(list, "ANTHROPIC_BASE_URL");
    push_text(list, "ANTHROPIC_BEDROCK_BASE_URL");
    push_text(list, "ANTHROPIC_BEDROCK_MANTLE_BASE_URL");
    push_text(list, "ANTHROPIC_CUSTOM_HEADERS");
    push_text(list, "ANTHROPIC_FOUNDRY_BASE_URL");
    push_text(list, "ANTHROPIC_VERTEX_BASE_URL");
    push_text(list, "CLAUDE_CODE_OAUTH_TOKEN");
    push_text(list, "CLAUDE_CODE_USE_ANTHROPIC_AWS");
    push_text(list, "CLAUDE_CODE_USE_BEDROCK");
    push_text(list, "CLAUDE_CODE_USE_FOUNDRY");
    push_text(list, "CLAUDE_CODE_USE_MANTLE");
    push_text(list, "CLAUDE_CODE_USE_VERTEX");
    assert(texts(list@) =~= was + connection_variables());
}

/// How the harness is started.
#[derive(Debug, Clone, PartialEq, Eq)]
pub struct ClaudeLauncher {
    pub connection_name: Option<String>,
    pub environment_name: Option<String>,
    pub program: String,
    pub prefix_args: Vec<String>,
    pub model: Option<String>,
    pub auto_compact_window: Option<u64>,
    pub auto_compact_percent: Option<u8>,
    pub max_output_tokens: Option<u64>,
    pub environment: Vec<LauncherEnvironment>,
    pub unset_environment: Vec<String>,
}

pub struct LauncherView {
    pub connection_name: Option<Seq<char>>,
    pub environment_name: Option<Seq<char>>,
    pub program: Seq<char>,
    pub prefix_args: Seq<Seq<char>>,
    pub model: Option<Seq<char>>,
    pub auto_compact_window: Option<u64>,
    pub auto_compact_percent: Option<u8>,
    pub max_output_tokens: Option<u64>,
    pub environment: Seq<VariableView>,
    pub unset_environment: Seq<Seq<char>>,
}

impl View for ClaudeLauncher {
    type V = LauncherView;

    open spec fn view(&self) -> LauncherView {
        LauncherView {
            connection_name: text_option(self.connection_name),
            environment_name: text_option(self.environment_name),
            program: self.program@,
            prefix_args: texts(self.prefix_args@),
            model: text_option(self.model),
            auto_compact_window: self.auto_compact_window,
            auto_compact_percent: self.auto_compact_percent,
            max_output_tokens: self.max_output_tokens,
            environment: seen_all(self.environment@),
            unset_environment: texts(self.unset_environment@),
        }
    }
}

/// The launcher of a command line.
pub open spec fn parsed_launcher(
    command: Seq<char>,
    model: Option<Seq<char>>,
    window: Option<u64>,
    percent: Option<u8>,
    tokens: Option<u64>,
    h: HarnessView,
) -> Result<LauncherView, Seq<char>> {
    match command_words(command, h.command_option()) {
        Err(message) => Err(message),
        Ok(words) => if words.len() == 0 {
            Err(h.command_option() + " cannot be empty"@)
        } else {
            Ok(
                LauncherView {
                    connection_name: None,
                    environment_name: None,
                    program: words[0],
                    prefix_args: words.skip(1),
                    model,
                    auto_compact_window: window,
                    auto_compact_percent: percent,
                    max_output_tokens: tokens,
                    environment: Seq::empty(),
                    unset_environment: Seq::empty(),
                },
            )
        },
    }
}

/// The variables that are taken from an agent before those that are given are looked at:
/// those of the service where the connection is isolated, and the ones it lists; or the
/// first of the listed ones that no variable can be.
pub open spec fn hidden(isolate: bool, listed: Seq<Seq<char>>, h: HarnessView) -> Result<
    Seq<Seq<char>>,
    Seq<char>,
>
    decreases listed.len(),
{
    if listed.len() == 0 {
        Ok(if isolate { connection_variables() } else { Seq::empty() })
    } else {
        match hidden(isolate, listed.drop_last(), h) {
            Err(message) => Err(message),
            Ok(so_far) => if !template_name(listed.last()) {
                Err(bad_variable(listed.last(), h.title))
            } else if so_far.contains(listed.last()) {
                Ok(so_far)
            } else {
                Ok(so_far.push(listed.last()))
            },
        }
    }
}

proof fn lemma_refused_hidden(isolate: bool, listed: Seq<Seq<char>>, n: int, h: HarnessView)
    requires
        0 <= n <= listed.len(),
        hidden(isolate, listed.take(n), h) is Err,
    ensures
        hidden(isolate, listed, h) == hidden(isolate, listed.take(n), h),
    decreases listed.len(),
{
    if n < listed.len() {
        assert(listed.drop_last().take(n) =~= listed.take(n));
        lemma_refused_hidden(isolate, listed.drop_last(), n, h);
    } else {
        assert(listed.take(n) =~= listed);
    }
}

fn hidden_variables(isolate: bool, listed: &Vec<String>, harness: &Harness) -> (r: Result<
    Vec<String>,
    Failure,
>)
    ensures
        match r {
            Ok(list) => hidden(isolate, texts(listed@), harness@) == Ok::<_, Seq<char>>(
                texts(list@),
            ),
            Err(e) => hidden(isolate, texts(listed@), harness@) == Err::<Seq<Seq<char>>, _>(
                e.message@,
            ),
        },
{
    let mut list: Vec<String> = Vec::new();
    let ghost all = texts(listed@);
    assert(texts(list@) =~= Seq::empty());
    if isolate {
        push_connection_variables(&mut list);
        assert(texts(list@) =~= connection_variables());
    }
    let mut i: usize = 0;
    assert(all.take(0) =~= Seq::empty());
    while i < listed.len()
        invariant
            i <= listed@.len(),
            all == texts(listed@),
            hidden(isolate, all.take(i as int), harness@) == Ok::<_, Seq<char>>(texts(list@)),
        decreases listed@.len() - i,
    {
        proof {
            let upto = all.take(i + 1);
            assert(upto.drop_last() =~= all.take(i as int));
            assert(upto.last() == all[i as int]);
            if hidden(isolate, upto, harness@) is Err {
                lemma_refused_hidden(isolate, all, i + 1, harness@);
            }
        }
        match validate_environment_name(listed[i].as_str(), harness.title.as_str()) {
            Ok(_) => {},
            Err(e) => {
                return Err(e);
            },
        }
        if !holds(&list, listed[i].as_str()) {
            push_text(&mut list, listed[i].as_str());
        }
        i += 1;
    }
    assert(all.take(i as int) =~= all);
    Ok(list)
}

/// The name that a connection is shown by.
pub open spec fn shown_name(name: Option<Seq<char>>) -> Seq<char> {
    match name {
        Some(name) => name,
        None => "unnamed"@,
    }
}

/// The launcher of a connection, in the surrounding environment.
pub open spec fn connected_launcher(
    c: AgentConnection,
    surrounding: Seq<(Seq<char>, Seq<char>)>,
    h: HarnessView,
) -> Result<LauncherView, Seq<char>> {
    match parsed_launcher(
        c.command@,
        text_option(c.model),
        c.auto_compact_window,
        c.auto_compact_percent,
        c.max_output_tokens,
        h,
    ) {
        Err(message) => Err(message),
        Ok(launcher) => match hidden(c.isolate, texts(c.unset_env@), h) {
            Err(message) => Err(message),
            Ok(unset) => match given(
                named(c.env@),
                unset,
                surrounding,
                h.title,
                shown_name(text_option(c.name)),
            ) {
                Err(message) => Err(message),
                Ok(found) => Ok(
                    LauncherView {
                        connection_name: text_option(c.name),
                        environment_name: text_option(c.environment_name),
                        environment: found.1,
                        unset_environment: found.0,
                        ..launcher
                    },
                ),
            },
        },
    }
}

impl ClaudeLauncher {
    /// The launcher of a command line: its first word is the program.
    pub fn parse(
        command: &str,
        model: Option<String>,
        auto_compact_window: Option<u64>,
        auto_compact_percent: Option<u8>,
        max_output_tokens: Option<u64>,
        harness: &Harness,
    ) -> (r: Result<ClaudeLauncher, Failure>)
        ensures
            outcome(r) == parsed_launcher(
                command@,
                text_option(model),
                auto_compact_window,
                auto_compact_percent,
                max_output_tokens,
                harness@,
            ),
    {
        let option = harness.command_option();
        let mut words = match split_command(command, option.as_str()) {
            Ok(words) => words,
            Err(e) => {
                return Err(e);
            },
        };
        if words.len() == 0 {
            return fail(cat2(option.as_str(), " cannot be empty"));
        }
        let ghost all = texts(words@);
        let program = words.remove(0);
        assert(texts(words@) =~= all.skip(1));
        let environment: Vec<LauncherEnvironment> = Vec::new();
        let unset_environment: Vec<String> = Vec::new();
        assert(seen_all(environment@) =~= Seq::empty());
        assert(texts(unset_environment@) =~= Seq::empty());
        Ok(
            ClaudeLauncher {
                connection_name: None,
                environment_name: None,
                program,
                prefix_args: words,
                model,
                auto_compact_window,
                auto_compact_percent,
                max_output_tokens,
                environment,
                unset_environment,
            },
        )
    }

    /// The launcher of a connection. `surrounding` holds the variables that are set.
    pub fn from_connection(
        connection: &AgentConnection,
        surrounding: &Vec<(String, String)>,
        harness: &Harness,
    ) -> (r: Result<ClaudeLauncher, Failure>)
        ensures
            outcome(r) == connected_launcher(*connection, named(surrounding@), harness@),
    {
        let launcher = match ClaudeLauncher::parse(
            connection.command.as_str(),
            copy_option(&connection.model),
            connection.auto_compact_window,
            connection.auto_compact_percent,
            connection.max_output_tokens,
            harness,
        ) {
            Ok(launcher) => launcher,
            Err(e) => {
                return Err(e);
            },
        };
        let unset = match hidden_variables(connection.isolate, &connection.unset_env, harness) {
            Ok(unset) => unset,
            Err(e) => {
                return Err(e);
            },
        };
        let profile = match &connection.name {
            Some(name) => name.as_str(),
            None => "unnamed",
        };
        match resolve_environment(
            &connection.env,
            unset,
            surrounding,
            harness.title.as_str(),
            profile,
        ) {
            Err(e) => Err(e),
            Ok(found) => Ok(
                ClaudeLauncher {
                    connection_name: copy_option(&connection.name),
                    environment_name: copy_option(&connection.environment_name),
                    program: launcher.program,
                    prefix_args: launcher.prefix_args,
                    model: launcher.model,
                    auto_compact_window: launcher.auto_compact_window,
                    auto_compact_percent: launcher.auto_compact_percent,
                    max_output_tokens: launcher.max_output_tokens,
                    environment: found.1,
                    unset_environment: found.0,
                },
            ),
        }
    }
}

/// The slash commands of the stages.
#[derive(Debug, Clone, PartialEq, Eq)]
pub struct SkillCommands {
    pub explore: String,
    pub propose: String,
    pub apply: String,
    pub verify: String,
    pub archive: String,
}

pub struct SkillsView {
    pub explore: Seq<char>,
    pub propose: Seq<char>,
    pub apply: Seq<char>,
    pub verify: Seq<char>,
    pub archive: Seq<char>,
}

impl View for SkillCommands {
    type V = SkillsView;

    open spec fn view(&self) -> SkillsView {
        SkillsView {
            explore: self.explore@,
            propose: self.propose@,
            apply: self.apply@,
            verify: self.verify@,
            archive: self.archive@,
        }
    }
}

/// A command with its slash.
pub open spec fn slashed(command: Seq<char>) -> Seq<char> {
    if starts(command, "/"@) {
        command
    } else {
        "/"@ + command
    }
}

pub fn normalize_command(command: &str) -> (r: String)
    ensures
        r@ == slashed(command@),
{
    if starts_with(command, "/") {
        command.to_owned()
    } else {
        cat2("/", command)
    }
}

/// The command of a stage whose skill is bundled.
pub open spec fn bundled(explicit: Option<Seq<char>>, name: Seq<char>) -> Seq<char> {
    match explicit {
        Some(command) => slashed(command),
        None => "/"@ + name,
    }
}

pub fn resolve_bundled_command(explicit: Option<&str>, bundled_name: &str) -> (r: String)
    ensures
        r@ == bundled(str_option(explicit), bundled_name@),
{
    match explicit {
        Some(command) => normalize_command(command),
        None => cat2("/", bundled_name),
    }
}

/// Where a skill of the repository may stand, for a stage: as a skill, as a command, or
/// as a directory of commands.
pub open spec fn skill_places(h: HarnessView, stage: Seq<char>) -> Seq<Seq<char>> {
    let directory = h.directory();
    seq![
        directory + "/skills/openspec-"@ + stage + "-change/SKILL.md"@,
        directory + "/commands/opsx/"@ + stage + ".md"@,
        directory + "/commands/opsx/"@ + stage,
    ]
}

/// The command of a stage: the one that is asked for, else the first that the repository
/// has; or why there is none. `present` holds the paths that there are.
pub open spec fn discovered(
    explicit: Option<Seq<char>>,
    h: HarnessView,
    stage: Seq<char>,
    present: Seq<Seq<char>>,
) -> Result<Seq<char>, Seq<char>> {
    let places = skill_places(h, stage);
    match explicit {
        Some(command) => Ok(slashed(command)),
        None => if present.contains(places[0]) {
            Ok("/openspec-"@ + stage + "-change"@)
        } else if present.contains(places[1]) || present.contains(places[2]) {
            Ok("/opsx:"@ + stage)
        } else {
            Err(
                "could not discover the "@ + h.title + " "@ + stage + " skill in `"@
                    + h.directory() + "/skills` or `"@ + h.directory() + "/commands`; pass `--"@
                    + stage + "-command /your-command`"@,
            )
        },
    }
}

/// The paths at which the skill of a stage is looked for, in order.
pub fn skill_candidates(harness: &Harness, stage: &str) -> (r: Vec<String>)
    ensures
        texts(r@) == skill_places(harness@, stage@),
{
    let place = harness.directory();
    let directory = place.as_str();
    let mut list: Vec<String> = Vec::new();
    let first = cat4(directory, "/skills/openspec-", stage, "-change/SKILL.md");
    let second = cat4(directory, "/commands/opsx/", stage, ".md");
    let third = cat3(directory, "/commands/opsx/", stage);
    push_text(&mut list, first.as_str());
    push_text(&mut list, second.as_str());
    push_text(&mut list, third.as_str());
    assert(texts(list@) =~= skill_places(harness@, stage@));
    list
}

/// Finds the command of a stage. `present` holds the paths that there are.
pub fn resolve_command(
    explicit: Option<&str>,
    harness: &Harness,
    stage: &str,
    present: &Vec<String>,
) -> (r: Result<String, Failure>)
    ensures
        outcome(r) == discovered(str_option(explicit), harness@, stage@, texts(present@)),
{
    if let Some(command) = explicit {
        return Ok(normalize_command(command));
    }
    let places = skill_candidates(harness, stage);
    assert(texts(places@).len() == 3);
    assert(places@[0]@ == texts(places@)[0]);
    assert(places@[1]@ == texts(places@)[1]);
    assert(places@[2]@ == texts(places@)[2]);
    if holds(present, places[0].as_str()) {
        return Ok(cat3("/openspec-", stage, "-change"));
    }
    if holds(present, places[1].as_str()) || holds(present, places[2].as_str()) {
        return Ok(cat2("/opsx:", stage));
    }
    let place = harness.directory();
    let directory = place.as_str();
    let start = cat5(
        "could not discover the ",
        harness.title.as_str(),
        " ",
        stage,
        " skill in `",
    );
    let head = cat3(start.as_str(), directory, "/skills` or `");
    fail(
        cat5(head.as_str(), directory, "/commands`; pass `--", stage, "-command /your-command`"),
    )
}

/// The commands of all stages.
pub open spec fn skills(cli: Cli, h: HarnessView, present: Seq<Seq<char>>) -> Result<
    SkillsView,
    Seq<char>,
> {
    match discovered(text_option(cli.apply_command), h, "apply"@, present) {
        Err(message) => Err(message),
        Ok(apply) => match discovered(text_option(cli.verify_command), h, "verify"@, present) {
            Err(message) => Err(message),
            Ok(verify) => match discovered(text_option(cli.archive_command), h, "archive"@, present) {
                Err(message) => Err(message),
                Ok(archive) => Ok(
                    SkillsView {
                        explore: bundled(text_option(cli.explore_command), "explore-unattended"@),
                        propose: bundled(text_option(cli.propose_command), "propose-unattended"@),
                        apply,
                        verify,
                        archive,
                    },
                ),
            },
        },
    }
}

fn borrowed(o: &Option<String>) -> (r: Option<&str>)
    ensures
        str_option(r) == text_option(*o),
{
    match o {
        Some(t) => Some(t.as_str()),
        None => None,
    }
}

impl SkillCommands {
    /// The commands of the stages. `present` holds the paths that there are.
    pub fn discover(cli: &Cli, harness: &Harness, present: &Vec<String>) -> (r: Result<
        SkillCommands,
        Failure,
    >)
        ensures
            outcome(r) == skills(*cli, harness@, texts(present@)),
    {
        let apply = match resolve_command(borrowed(&cli.apply_command), harness, "apply", present) {
            Ok(command) => command,
            Err(e) => {
                return Err(e);
            },
        };
        let verify = match resolve_command(borrowed(&cli.verify_command), harness, "verify", present) {
            Ok(command) => command,
            Err(e) => {
                return Err(e);
            },
        };
        let archive = match resolve_command(borrowed(&cli.archive_command), harness, "archive", present) {
            Ok(command) => command,
            Err(e) => {
                return Err(e);
            },
        };
        Ok(
            SkillCommands {
                explore: resolve_bundled_command(
                    borrowed(&cli.explore_command),
                    "explore-unattended",
                ),
                propose: resolve_bundled_command(
                    borrowed(&cli.propose_command),
                    "propose-unattended",
                ),
                apply,
                verify,
                archive,
            },
        )
    }
}

/// How the harness writes what it has to say.
#[derive(Debug, Clone, Copy, PartialEq, Eq, Structural)]
pub enum ClaudeOutputFormat {
    Text,
    Json,
    StreamJson,
}

impl ClaudeOutputFormat {
    pub open spec fn title(self) -> Seq<char> {
        match self {
            ClaudeOutputFormat::Text => "text output"@,
            ClaudeOutputFormat::Json => "JSON output"@,
            ClaudeOutputFormat::StreamJson => "streaming JSON output"@,
        }
    }
}

pub fn format_name(format: ClaudeOutputFormat) -> (r: &'static str)
    ensures
        r@ == format.title(),
{
    match format {
        ClaudeOutputFormat::Text => "text output",
        ClaudeOutputFormat::Json => "JSON output",
        ClaudeOutputFormat::StreamJson => "streaming JSON output",
    }
}

/// A command with the limits of its launcher.
pub open spec fn with_limits(c: CommandView, l: LauncherView) -> CommandView {
    let window = match l.auto_compact_window {
        Some(n) => seq![(AUTO_COMPACT_ENV@, decimal(n as nat))],
        None => Seq::empty(),
    };
    let percent = match l.auto_compact_percent {
        Some(n) => seq![(AUTO_COMPACT_PERCENT_ENV@, decimal(n as nat))],
        None => Seq::empty(),
    };
    let tokens = match l.max_output_tokens {
        Some(n) => seq![(MAX_OUTPUT_TOKENS_ENV@, decimal(n as nat))],
        None => Seq::empty(),
    };
    CommandView { env: c.env + window + percent + tokens, ..c }
}

/// A command in the environment and with the limits of its launcher.
pub open spec fn launched(c: CommandView, l: LauncherView) -> CommandView {
    with_limits(in_environment(c, l.unset_environment, l.environment), l)
}

pub fn with_launcher_environment(spec: CommandSpec, launcher: &ClaudeLauncher) -> (r: CommandSpec)
    ensures
        r@ == launched(spec@, launcher@),
{
    let mut command = with_environment(spec, &launcher.unset_environment, &launcher.environment);
    let ghost base = command@;
    if let Some(window) = launcher.auto_compact_window {
        let text = decimal_text(window);
        command = command.env(AUTO_COMPACT_ENV, text.as_str());
    }
    if let Some(percentage) = launcher.auto_compact_percent {
        let text = decimal_text(percentage as u64);
        command = command.env(AUTO_COMPACT_PERCENT_ENV, text.as_str());
    }
    if let Some(tokens) = launcher.max_output_tokens {
        let text = decimal_text(tokens);
        command = command.env(MAX_OUTPUT_TOKENS_ENV, text.as_str());
    }
    assert(command@.env =~= with_limits(base, launcher@).env);
    command
}

/// The words that every command of the harness begins with.
pub open spec fn leading_args(l: LauncherView) -> Seq<Seq<char>> {
    match l.model {
        Some(model) => l.prefix_args.push("--model"@).push(model),
        None => l.prefix_args,
    }
}

fn leading(launcher: &ClaudeLauncher) -> (r: Vec<String>)
    ensures
        texts(r@) == leading_args(launcher@),
{
    let mut args = copy_all(&launcher.prefix_args);
    if let Some(model) = &launcher.model {
        push_text(&mut args, "--model");
        push_text(&mut args, model.as_str());
    }
    args
}

/// The options of an output format.
pub open spec fn format_args_of(format: ClaudeOutputFormat) -> Seq<Seq<char>> {
    match format {
        ClaudeOutputFormat::Text => Seq::empty(),
        ClaudeOutputFormat::Json => seq!["--output-format"@, "json"@],
        ClaudeOutputFormat::StreamJson => seq![
            "--input-format"@,
            "stream-json"@,
            "--output-format"@,
            "stream-json"@,
            "--verbose"@,
            "--forward-subagent-text"@,
        ],
    }
}

/// The options of a conversation.
pub open spec fn session_args(session: SessionModeView) -> Seq<Seq<char>> {
    match session {
        SessionModeView::New { id, name } => match name {
            Some(name) => seq!["--session-id"@, id, "--name"@, name],
            None => seq!["--session-id"@, id],
        },
        SessionModeView::Resume { id } => seq!["--resume"@, id],
    }
}

/// The words of the command that carries out a stage. Only a harness that streams gets
/// its prompt on its input.
pub open spec fn stage_args(
    l: LauncherView,
    permission_mode: Seq<char>,
    session: SessionModeView,
    prompt: Seq<char>,
    format: ClaudeOutputFormat,
    schema: Option<Seq<char>>,
) -> Seq<Seq<char>> {
    leading_args(l) + seq!["--print"@] + format_args_of(format) + match schema {
        Some(schema) => seq!["--json-schema"@, schema],
        None => Seq::empty(),
    } + seq!["--permission-mode"@, permission_mode] + session_args(session) + if format
        == ClaudeOutputFormat::StreamJson {
        Seq::empty()
    } else {
        seq![prompt]
    }
}

/// The command that carries out a stage.
pub open spec fn stage_command(
    repo: Seq<char>,
    l: LauncherView,
    permission_mode: Seq<char>,
    session: SessionModeView,
    prompt: Seq<char>,
    format: ClaudeOutputFormat,
    schema: Option<Seq<char>>,
) -> CommandView {
    let bare = CommandView {
        args: stage_args(l, permission_mode, session, prompt, format, schema),
        ..bare_command(l.program, repo)
    };
    launched(
        if format == ClaudeOutputFormat::StreamJson {
            CommandView {
                initial_stdin: Some(user_message(prompt)),
                accepts_stream_messages: true,
                ..bare
            }
        } else {
            bare
        },
        l,
    )
}

fn push_format_args(args: &mut Vec<String>, output_format: ClaudeOutputFormat)
    ensures
        texts(final(args)@) == texts(old(args)@) + format_args_of(output_format),
{
    match output_format {
        ClaudeOutputFormat::Text => {},
        ClaudeOutputFormat::Json => {
            push_text(args, "--output-format");
            push_text(args, "json");
        },
        ClaudeOutputFormat::StreamJson => {
            push_text(args, "--input-format");
            push_text(args, "stream-json");
            push_text(args, "--output-format");
            push_text(args, "stream-json");
            push_text(args, "--verbose");
            push_text(args, "--forward-subagent-text");
        },
    }
    assert(texts(args@) =~= texts(old(args)@) + format_args_of(output_format));
}

fn push_session_args(args: &mut Vec<String>, session: &SessionMode)
    ensures
        texts(final(args)@) == texts(old(args)@) + session_args(session@),
{
    match session {
        SessionMode::New { id, name } => {
            push_text(args, "--session-id");
            push_text(args, id.as_str());
            if let Some(name) = name {
                push_text(args, "--name");
                push_text(args, name.as_str());
            }
        },
        SessionMode::Resume { id } => {
            push_text(args, "--resume");
            push_text(args, id.as_str());
        },
    }
    assert(texts(args@) =~= texts(old(args)@) + session_args(session@));
}

pub fn build_claude_command(
    repo: &str,
    launcher: &ClaudeLauncher,
    permission_mode: &str,
    session: &SessionMode,
    prompt: &str,
    output_format: ClaudeOutputFormat,
    json_schema: Option<&str>,
) -> (r: CommandSpec)
    ensures
        r@ == stage_command(
            repo@,
            launcher@,
            permission_mode@,
            session@,
            prompt@,
            output_format,
            str_option(json_schema),
        ),
{
    let mut args = leading(launcher);
    push_text(&mut args, "--print");
    push_format_args(&mut args, output_format);
    if let Some(schema) = json_schema {
        push_text(&mut args, "--json-schema");
        push_text(&mut args, schema);
    }
    push_text(&mut args, "--permission-mode");
    push_text(&mut args, permission_mode);
    push_session_args(&mut args, session);
    if output_format != ClaudeOutputFormat::StreamJson {
        push_text(&mut args, prompt);
    }
    proof {
        assert(texts(args@) =~= stage_args(
            launcher@,
            permission_mode@,
            session@,
            prompt@,
            output_format,
            str_option(json_schema),
        ));
    }
    let mut spec = CommandSpec::new(launcher.program.as_str(), repo).args(&args);
    assert(spec@.args =~= texts(args@));
    if output_format == ClaudeOutputFormat::StreamJson {
        spec = spec.stream_input(stream_user_message(prompt));
    }
    with_launcher_environment(spec, launcher)
}

/// The command of a session that a person works in.
pub open spec fn interactive_command(
    repo: Seq<char>,
    l: LauncherView,
    permission_mode: Seq<char>,
    extra: Seq<Seq<char>>,
    prompt: Option<Seq<char>>,
) -> CommandView {
    launched(
        CommandView {
            args: leading_args(l) + seq!["--permission-mode"@, permission_mode] + extra
                + match prompt {
                Some(prompt) => seq![prompt],
                None => Seq::empty(),
            },
            ..bare_command(l.program, repo)
        },
        l,
    )
}

pub fn build_interactive_claude_command(
    repo: &str,
    launcher: &ClaudeLauncher,
    permission_mode: &str,
    extra_args: &Vec<String>,
    initial_prompt: Option<&str>,
) -> (r: CommandSpec)
    ensures
        r@ == interactive_command(
            repo@,
            launcher@,
            permission_mode@,
            texts(extra_args@),
            str_option(initial_prompt),
        ),
{
    let mut args = leading(launcher);
    let ghost a0 = texts(args@);
    push_text(&mut args, "--permission-mode");
    push_text(&mut args, permission_mode);
    append_all(&mut args, extra_args);
    if let Some(prompt) = initial_prompt {
        push_text(&mut args, prompt);
    }
    let spec = CommandSpec::new(launcher.program.as_str(), repo).args(&args);
    assert(spec@.args =~= a0 + seq!["--permission-mode"@, permission_mode@] + texts(extra_args@)
        + match str_option(initial_prompt) {
        Some(prompt) => seq![prompt],
        None => Seq::empty(),
    });
    with_launcher_environment(spec, launcher)
}

pub const CONNECTION_TEST_1: &'static str =
    "Connectivity test only. Do not inspect files, invoke tools, or perform any other work. Reply with exactly ";

/// The command that tries a connection, and leaves no conversation behind.
pub open spec fn test_command(repo: Seq<char>, l: LauncherView, permission_mode: Seq<char>) -> CommandView {
    launched(
        CommandView {
            args: leading_args(l) + seq![
                "--print"@,
                "--output-format"@,
                "json"@,
                "--no-session-persistence"@,
                "--permission-mode"@,
                permission_mode,
                CONNECTION_TEST_1@ + CONNECTION_TEST_MARKER@ + "."@,
            ],
            ..bare_command(l.program, repo)
        },
        l,
    )
}

pub fn build_connection_test_command(
    repo: &str,
    launcher: &ClaudeLauncher,
    permission_mode: &str,
) -> (r: CommandSpec)
    ensures
        r@ == test_command(repo@, launcher@, permission_mode@),
{
    let mut args = leading(launcher);
    let ghost a0 = texts(args@);
    push_text(&mut args, "--print");
    push_text(&mut args, "--output-format");
    push_text(&mut args, "json");
    push_text(&mut args, "--no-session-persistence");
    push_text(&mut args, "--permission-mode");
    push_text(&mut args, permission_mode);
    let prompt = cat3(CONNECTION_TEST_1, CONNECTION_TEST_MARKER, ".");
    push_text(&mut args, prompt.as_str());
    let spec = CommandSpec::new(launcher.program.as_str(), repo).args(&args);
    assert(spec@.args =~= a0 + seq![
        "--print"@,
        "--output-format"@,
        "json"@,
        "--no-session-persistence"@,
        "--permission-mode"@,
        permission_mode@,
        CONNECTION_TEST_1@ + CONNECTION_TEST_MARKER@ + "."@,
    ]);
    with_launcher_environment(spec, launcher)
}

/// The command that compacts a conversation.
pub open spec fn compact_command(
    repo: Seq<char>,
    l: LauncherView,
    permission_mode: Seq<char>,
    id: Seq<char>,
    format: ClaudeOutputFormat,
) -> CommandView {
    CommandView {
        accepts_stream_messages: false,
        ..stage_command(
            repo,
            l,
            permission_mode,
            SessionModeView::Resume { id },
            "/compact"@,
            format,
            None,
        )
    }
}

pub fn build_compact_command(
    repo: &str,
    launcher: &ClaudeLauncher,
    permission_mode: &str,
    session_id: &SessionId,
    output_format: ClaudeOutputFormat,
) -> (r: CommandSpec)
    ensures
        r@ == compact_command(repo@, launcher@, permission_mode@, session_id@, output_format),
{
    build_claude_command(
        repo,
        launcher,
        permission_mode,
        &SessionMode::Resume { id: session_id.copy() },
        "/compact",
        output_format,
        None,
    ).disable_stream_messages()
}

/// The documents among some lines, in order.
pub open spec fn line_documents(list: Seq<Seq<char>>) -> Seq<Json>
    decreases list.len(),
{
    if list.len() == 0 {
        Seq::empty()
    } else {
        match parsed_json(list.last()) {
            Some(value) => line_documents(list.drop_last()).push(value),
            None => line_documents(list.drop_last()),
        }
    }
}

/// The documents of an output: the one that it is, or those among its lines.
pub open spec fn documents_of(stdout: Seq<char>) -> Seq<Json> {
    match parsed_json(stdout) {
        Some(value) => seq![value],
        None => line_documents(lines_of(stdout)),
    }
}

/// Reads the documents among the lines of an output.
pub fn parse_lines(stdout: &str) -> (r: Vec<Json>)
    ensures
        r@ == line_documents(lines_of(stdout@)),
{
    let list = lines(stdout);
    let ghost all = texts(list@);
    let mut out: Vec<Json> = Vec::new();
    let mut i: usize = 0;
    assert(all.take(0) =~= Seq::empty());
    while i < list.len()
        invariant
            i <= list@.len(),
            all == texts(list@),
            out@ == line_documents(all.take(i as int)),
        decreases list@.len() - i,
    {
        proof {
            let upto = all.take(i + 1);
            assert(upto.drop_last() =~= all.take(i as int));
            assert(upto.last() == list@[i as int]@);
        }
        if let Some(value) = parse_json(list[i].as_str()) {
            out.push(value);
        }
        i += 1;
    }
    assert(all.take(i as int) =~= all);
    out
}

/// Reads the documents of an output.
pub fn parse_output_values(stdout: &str) -> (r: Vec<Json>)
    ensures
        r@ == documents_of(stdout@),
{
    if let Some(value) = parse_json(stdout) {
        let mut out: Vec<Json> = Vec::new();
        out.push(value);
        assert(out@ =~= seq![value]);
        return out;
    }
    parse_lines(stdout)
}

/// The texts of a message of the agent, where an event of a conversation is one.
pub open spec fn assistant_said(event: Json) -> Seq<Seq<char>> {
    if text_in(member(event, "type"@)) == Some("assistant"@) {
        match items_in(member_of(member(event, "message"@), "content"@)) {
            Some(parts) => texts_under(parts, Some("text"@)),
            None => Seq::empty(),
        }
    } else {
        Seq::empty()
    }
}

/// The texts of a message of the agent.
pub fn assistant_texts(event: &Json) -> (r: Vec<String>)
    ensures
        texts(r@) == assistant_said(*event),
{
    let none: Vec<String> = Vec::new();
    assert(texts(none@) =~= Seq::empty());
    if !is_text(event.get("type"), "assistant") {
        return none;
    }
    match as_items(get_in(event.get("message"), "content")) {
        Some(parts) => collect_texts(parts, Some("text")),
        None => none,
    }
}

/// Whether a text says that the limit on output tokens was reached.
pub open spec fn mentions_limit(text: Seq<char>) -> bool {
    let low = lowered(text);
    contains_text(low, "max_output_tokens"@) || contains_text(low, "max output tokens"@)
        || contains_text(low, "maximum output tokens"@) || contains_text(
        low,
        "output token limit"@,
    ) || contains_text(low, "output token maximum"@)
}

pub fn text_mentions_output_limit(text: &str) -> (r: bool)
    ensures
        r == mentions_limit(text@),
{
    let low = to_lower(text);
    contains(low.as_str(), "max_output_tokens") || contains(low.as_str(), "max output tokens")
        || contains(low.as_str(), "maximum output tokens") || contains(
        low.as_str(),
        "output token limit",
    ) || contains(low.as_str(), "output token maximum")
}

/// Whether a text that may be absent mentions the limit.
pub open spec fn limit_text(text: Option<Seq<char>>) -> bool {
    text is Some && mentions_limit(text->0)
}

/// Whether one of some errors mentions the limit.
pub open spec fn limit_among(errors: Seq<Json>) -> bool {
    exists|i: int| 0 <= i < errors.len() && limit_text(text_in(Some(#[trigger] errors[i])))
}

/// Whether a document says that the limit was reached.
pub open spec fn limit_in(value: Json) -> bool {
    ||| text_in(member(value, "stop_reason"@)) == Some("max_tokens"@)
    ||| text_in(member_of(member(value, "message"@), "stop_reason"@)) == Some("max_tokens"@)
    ||| limit_text(text_in(member(value, "error"@)))
    ||| items_in(member(value, "errors"@)) is Some && limit_among(
        items_in(member(value, "errors"@))->0,
    )
    ||| bool_in(member(value, "is_error"@)) == Some(true) && limit_text(
        text_in(member(value, "result"@)),
    )
}

fn is_text(value: Option<&Json>, word: &str) -> (r: bool)
    ensures
        r == (text_in(target(value)) == Some(word@)),
{
    match as_text(value) {
        Some(text) => equal(text, word),
        None => false,
    }
}

fn mentions(value: Option<&Json>) -> (r: bool)
    ensures
        r == limit_text(text_in(target(value))),
{
    match as_text(value) {
        Some(text) => text_mentions_output_limit(text),
        None => false,
    }
}

fn is_true(value: Option<&Json>) -> (r: bool)
    ensures
        r == (bool_in(target(value)) == Some(true)),
{
    match as_bool(value) {
        Some(flag) => flag,
        None => false,
    }
}

pub fn value_hit_token_limit(value: &Json) -> (r: bool)
    ensures
        r == limit_in(*value),
{
    if is_text(value.get("stop_reason"), "max_tokens") {
        return true;
    }
    if is_text(get_in(value.get("message"), "stop_reason"), "max_tokens") {
        return true;
    }
    if mentions(value.get("error")) {
        return true;
    }
    if let Some(errors) = as_items(value.get("errors")) {
        let mut i: usize = 0;
        while i < errors.len()
            invariant
                i <= errors@.len(),
                items_in(member(*value, "errors"@)) == Some(errors@),
                forall|k: int| 0 <= k < i ==> !limit_text(text_in(Some(#[trigger] errors@[k]))),
            decreases errors@.len() - i,
        {
            if mentions(Some(&errors[i])) {
                assert(limit_text(text_in(Some(errors@[i as int]))));
                return true;
            }
            i += 1;
        }
    }
    is_true(value.get("is_error")) && mentions(value.get("result"))
}

/// Whether a document is a result: by its kind, or because it has none.
pub open spec fn result_document(value: Json) -> bool {
    member(value, "type"@) is None || text_in(member(value, "type"@)) == Some("result"@)
}

fn is_result_document(value: &Json) -> (r: bool)
    ensures
        r == result_document(*value),
{
    value.get("type").is_none() || is_text(value.get("type"), "result")
}

/// The structured result of a document: as it stands, or as the text that holds it.
pub open spec fn structured_document(value: Json) -> Option<Json> {
    match member(value, "structured_output"@) {
        Some(Json::Text(text)) => parsed_json(text@),
        other => other,
    }
}

/// The signal of a text, if it has a terminal marker.
pub open spec fn marker(text: Option<Seq<char>>) -> Option<StageSignal> {
    match text {
        Some(text) => last_signal(lines_of(text)),
        None => None,
    }
}

/// Whether a document carries the terminal result of a stage.
pub open spec fn terminal_in(value: Json) -> bool {
    result_document(value) && (structured_signal(structured_document(value)) is Some || marker(
        text_in(member(value, "result"@)),
    ) is Some)
}

pub fn value_has_stage_terminal(value: &Json) -> (r: bool)
    ensures
        r == terminal_in(*value),
{
    if !is_result_document(value) {
        return false;
    }
    let found = match value.get("structured_output") {
        Some(Json::Text(text)) => {
            let decoded = parse_json(text.as_str());
            read_structured_signal(decoded.as_ref())
        },
        Some(other) => read_structured_signal(Some(other)),
        None => None,
    };
    if found.is_some() {
        return true;
    }
    match as_text(value.get("result")) {
        Some(text) => parse_signal(text).is_some(),
        None => false,
    }
}

/// Where the last document stands that says that the limit was reached.
pub open spec fn last_limit(values: Seq<Json>) -> Option<int>
    decreases values.len(),
{
    if values.len() == 0 {
        None
    } else if limit_in(values.last()) {
        Some(values.len() - 1)
    } else {
        last_limit(values.drop_last())
    }
}

/// Where the last document stands that carries a terminal result.
pub open spec fn last_terminal(values: Seq<Json>) -> Option<int>
    decreases values.len(),
{
    if values.len() == 0 {
        None
    } else if terminal_in(values.last()) {
        Some(values.len() - 1)
    } else {
        last_terminal(values.drop_last())
    }
}

/// Whether the harness stopped at the limit on output tokens: the limit comes after
/// every terminal result, or, where no document mentions it, what a failed run printed
/// does.
pub open spec fn limit_reached(values: Seq<Json>, success: bool, printed: Seq<char>) -> bool {
    match last_limit(values) {
        Some(limit) => match last_terminal(values) {
            Some(terminal) => terminal < limit,
            None => true,
        },
        None => !success && mentions_limit(printed),
    }
}

/// Decides from the documents of an output whether it stopped at the limit.
pub fn values_hit_token_limit(values: &Vec<Json>, success: bool, printed: &str) -> (r: bool)
    ensures
        r == limit_reached(values@, success, printed@),
{
    let mut i: usize = values.len();
    assert(values@.take(i as int) =~= values@);
    let mut terminal_after = false;
    while i > 0
        invariant
            i <= values@.len(),
            last_limit(values@) == last_limit(values@.take(i as int)),
            !terminal_after ==> last_terminal(values@) == last_terminal(values@.take(i as int)),
            terminal_after ==> last_terminal(values@) is Some && last_terminal(values@)->0 >= i,
        decreases i,
    {
        proof {
            let upto = values@.take(i as int);
            assert(upto.last() == values@[i - 1]);
            assert(upto.drop_last() =~= values@.take(i - 1));
            lemma_last_terminal(values@.take(i as int));
            lemma_last_terminal(values@.take(i - 1));
        }
        if value_hit_token_limit(&values[i - 1]) {
            if terminal_after {
                return false;
            }
            return !value_has_stage_terminal(&values[i - 1]);
        }
        if !terminal_after && value_has_stage_terminal(&values[i - 1]) {
            terminal_after = true;
        }
        i -= 1;
    }
    !success && text_mentions_output_limit(printed)
}

proof fn lemma_last_terminal(values: Seq<Json>)
    ensures
        last_terminal(values) matches Some(k) ==> 0 <= k < values.len(),
    decreases values.len(),
{
    if values.len() > 0 {
        lemma_last_terminal(values.drop_last());
    }
}

/// What a run printed, both ways.
pub open spec fn printed(output: ProcessOutput) -> Seq<char> {
    output.stdout@ + "\n"@ + output.stderr@
}

fn printed_text(output: &ProcessOutput) -> (r: String)
    ensures
        r@ == printed(*output),
{
    cat3(output.stdout.as_str(), "\n", output.stderr.as_str())
}

/// Whether an output stopped at the limit on output tokens.
pub fn output_hit_token_limit(output: &ProcessOutput) -> (r: bool)
    ensures
        r == limit_reached(documents_of(output.stdout@), output.success, printed(*output)),
{
    let values = parse_output_values(output.stdout.as_str());
    let all = printed_text(output);
    values_hit_token_limit(&values, output.success, all.as_str())
}

/// What the harness answered for a stage.
pub type ClaudeResult = StageResult;

/// The signal of a response: that of its last terminal marker.
pub fn parse_signal(text: &str) -> (r: Option<StageSignal>)
    ensures
        r == last_signal(lines_of(text@)),
{
    parse_terminal_signal(text)
}

/// The structured result of a document, if it has one, or why it is refused.
pub open spec fn structured_result(value: Json, h: HarnessView) -> Result<
    Option<(StageSignal, Seq<char>)>,
    Seq<char>,
> {
    match member(value, "structured_output"@) {
        None => Ok(None),
        Some(Json::Null) => Ok(None),
        _ => match structured_document(value) {
            None => Err(h.title + " returned invalid JSON in `structured_output`"@),
            Some(output) => {
                let status = match member(output, "opsx_status"@) {
                    Some(status) => Some(status),
                    None => member(output, "ospx_status"@),
                };
                match text_in(status) {
                    None => Err(h.title + " structured output omitted string field `opsx_status`"@),
                    Some(word) => match status_signal(word) {
                        None => Err(
                            h.title + " returned unknown structured status `"@ + word + "`"@,
                        ),
                        Some(signal) => Ok(
                            Some(
                                (
                                    signal,
                                    match text_in(member(output, "summary"@)) {
                                        Some(summary) => summary,
                                        None => ""@,
                                    },
                                ),
                            ),
                        ),
                    },
                }
            },
        },
    }
}

fn read_structured(output: &Json, harness: &Harness) -> (r: Result<
    Option<(StageSignal, String)>,
    Failure,
>)
    ensures
        match text_in(
            match member(*output, "opsx_status"@) {
                Some(status) => Some(status),
                None => member(*output, "ospx_status"@),
            },
        ) {
            None => failed(
                r,
                harness@.title + " structured output omitted string field `opsx_status`"@,
            ),
            Some(word) => match status_signal(word) {
                None => failed(
                    r,
                    harness@.title + " returned unknown structured status `"@ + word + "`"@,
                ),
                Some(signal) => r matches Ok(Some(found)) && found.0 == signal && found.1@
                    == match text_in(member(*output, "summary"@)) {
                    Some(summary) => summary,
                    None => ""@,
                },
            },
        },
{
    let status = match output.get("opsx_status") {
        Some(status) => Some(status),
        None => output.get("ospx_status"),
    };
    let word = match as_text(status) {
        Some(word) => word,
        None => {
            return fail(
                cat2(
                    harness.title.as_str(),
                    " structured output omitted string field `opsx_status`",
                ),
            );
        },
    };
    let signal = match parse_status_value(word) {
        Some(signal) => signal,
        None => {
            return fail(
                cat4(
                    harness.title.as_str(),
                    " returned unknown structured status `",
                    word,
                    "`",
                ),
            );
        },
    };
    let summary = match as_text(output.get("summary")) {
        Some(summary) => summary.to_owned(),
        None => "".to_owned(),
    };
    Ok(Some((signal, summary)))
}

pub fn parse_structured_output(result: &Json, harness: &Harness) -> (r: Result<
    Option<(StageSignal, String)>,
    Failure,
>)
    ensures
        match r {
            Ok(Some(found)) => structured_result(*result, harness@) == Ok::<_, Seq<char>>(
                Some((found.0, found.1@)),
            ),
            Ok(None) => structured_result(*result, harness@) == Ok::<
                Option<(StageSignal, Seq<char>)>,
                Seq<char>,
            >(None),
            Err(e) => structured_result(*result, harness@) == Err::<Option<(StageSignal, Seq<char>)>, _>(
                e.message@,
            ),
        },
{
    match result.get("structured_output") {
        None => Ok(None),
        Some(Json::Null) => Ok(None),
        Some(Json::Text(text)) => {
            let decoded = parse_json(text.as_str());
            match &decoded {
                None => fail(
                    cat2(harness.title.as_str(), " returned invalid JSON in `structured_output`"),
                ),
                Some(output) => read_structured(output, harness),
            }
        },
        Some(output) => read_structured(output, harness),
    }
}

pub const NO_TERMINAL: &'static str =
    " response contained neither structured `opsx_status` output nor an `OPSX_STATUS` terminal marker; rerun with --verbose to inspect it";

pub const NO_STREAM_TERMINAL: &'static str =
    " stream results contained neither structured `opsx_status` output nor an `OPSX_STATUS` terminal marker; rerun with ";

/// Why a stream without a terminal result is refused.
pub open spec fn no_stream_terminal(h: HarnessView) -> Seq<char> {
    h.title + NO_STREAM_TERMINAL@ + h.raw_option() + " to inspect them"@
}

/// The result that an output gives, which is `document` if it is one.
pub open spec fn result_of(document: Option<Json>, stdout: Seq<char>, h: HarnessView) -> Result<
    ResultView,
    Seq<char>,
> {
    let text = match text_in(member_of(document, "result"@)) {
        Some(text) => text,
        None => stdout,
    };
    let session_id = text_in(member_of(document, "session_id"@));
    if bool_in(member_of(document, "is_error"@)) == Some(true) {
        Err(h.title + " reported an error: "@ + text)
    } else {
        match (
            match document {
                Some(value) => structured_result(value, h),
                None => Ok(None),
            }
        ) {
            Err(message) => Err(message),
            Ok(Some(found)) => Ok(ResultView { text: found.1, session_id, signal: found.0 }),
            Ok(None) => match last_signal(lines_of(text)) {
                Some(signal) => Ok(ResultView { text, session_id, signal }),
                None => Err(h.title + NO_TERMINAL@),
            },
        }
    }
}

fn owned(text: Option<&str>) -> (r: Option<String>)
    ensures
        text_option(r) == str_option(text),
{
    match text {
        Some(text) => Some(text.to_owned()),
        None => None,
    }
}

/// Reads the result of a stage off an output, which is `document` if it is one.
pub fn result_from_document(document: Option<&Json>, stdout: &str, harness: &Harness) -> (r: Result<
    ClaudeResult,
    Failure,
>)
    ensures
        outcome(r) == result_of(target(document), stdout@, harness@),
{
    let text = match as_text(get_in(document, "result")) {
        Some(text) => text.to_owned(),
        None => stdout.to_owned(),
    };
    let session_id = owned(as_text(get_in(document, "session_id")));
    if is_true(get_in(document, "is_error")) {
        return fail(cat3(harness.title.as_str(), " reported an error: ", text.as_str()));
    }
    let structured = match document {
        Some(value) => match parse_structured_output(value, harness) {
            Ok(structured) => structured,
            Err(e) => {
                return Err(e);
            },
        },
        None => None,
    };
    match structured {
        Some(found) => Ok(StageResult { text: found.1, session_id, signal: found.0 }),
        None => match parse_signal(text.as_str()) {
            Some(signal) => Ok(StageResult { text, session_id, signal }),
            None => fail(cat2(harness.title.as_str(), NO_TERMINAL)),
        },
    }
}

/// Reads the result of a stage off an output.
pub fn parse_claude_output(stdout: &str, harness: &Harness) -> (r: Result<ClaudeResult, Failure>)
    ensures
        outcome(r) == result_of(parsed_json(stdout@), stdout@, harness@),
{
    let document = parse_json(stdout);
    result_from_document(document.as_ref(), stdout, harness)
}

/// Whether a document is an event that reports a result.
pub open spec fn result_event(value: Json) -> bool {
    text_in(member(value, "type"@)) == Some("result"@)
}

/// The text of a result.
pub open spec fn result_text(value: Json) -> Seq<char> {
    match text_in(member(value, "result"@)) {
        Some(text) => text,
        None => ""@,
    }
}

/// The last result among some events that is terminal, or refused.
pub open spec fn last_result(values: Seq<Json>, h: HarnessView) -> Option<
    Result<ResultView, Seq<char>>,
>
    decreases values.len(),
{
    if values.len() == 0 {
        None
    } else if !result_event(values.last()) {
        last_result(values.drop_last(), h)
    } else {
        let session_id = text_in(member(values.last(), "session_id"@));
        match structured_result(values.last(), h) {
            Err(message) => Some(Err(message)),
            Ok(Some(found)) => Some(
                Ok(ResultView { text: found.1, session_id, signal: found.0 }),
            ),
            Ok(None) => match last_signal(lines_of(result_text(values.last()))) {
                Some(signal) => Some(
                    Ok(ResultView { text: result_text(values.last()), session_id, signal }),
                ),
                None => last_result(values.drop_last(), h),
            },
        }
    }
}

/// The text of the last result among some events that reports an error.
pub open spec fn last_error(values: Seq<Json>) -> Option<Seq<char>>
    decreases values.len(),
{
    if values.len() == 0 {
        None
    } else if result_event(values.last()) && bool_in(member(values.last(), "is_error"@)) == Some(
        true,
    ) {
        Some(result_text(values.last()))
    } else {
        last_error(values.drop_last())
    }
}

/// Whether some events hold a result.
pub open spec fn has_result(values: Seq<Json>) -> bool {
    exists|i: int| 0 <= i < values.len() && result_event(#[trigger] values[i])
}

/// The result that a stream of events gives: the last terminal one, whatever comes after
/// it without one.
pub open spec fn stream_result(values: Seq<Json>, h: HarnessView) -> Result<ResultView, Seq<char>> {
    if !has_result(values) {
        Err(h.title + " stream ended without a result event"@)
    } else {
        match last_result(values, h) {
            Some(result) => result,
            None => match last_error(values) {
                Some(text) => Err(h.title + " reported an error: "@ + text),
                None => Err(no_stream_terminal(h)),
            },
        }
    }
}

/// Reads the result of a stage off the events of a stream.
pub fn result_from_events(values: &Vec<Json>, harness: &Harness) -> (r: Result<ClaudeResult, Failure>)
    ensures
        outcome(r) == stream_result(values@, harness@),
{
    let mut i: usize = values.len();
    let mut any = false;
    let mut error: Option<String> = None;
    assert(values@.take(i as int) =~= values@);
    while i > 0
        invariant
            i <= values@.len(),
            last_result(values@, harness@) == last_result(values@.take(i as int), harness@),
            error is None ==> last_error(values@) == last_error(values@.take(i as int)),
            error is Some ==> last_error(values@) == text_option(error),
            any ==> has_result(values@),
            !any ==> forall|k: int| i <= k < values@.len() ==> !result_event(#[trigger] values@[k]),
        decreases i,
    {
        proof {
            let upto = values@.take(i as int);
            assert(upto.last() == values@[i - 1]);
            assert(upto.drop_last() =~= values@.take(i - 1));
        }
        let value = &values[i - 1];
        if is_text(value.get("type"), "result") {
            any = true;
            assert(result_event(values@[i - 1]));
            let text = match as_text(value.get("result")) {
                Some(text) => text.to_owned(),
                None => "".to_owned(),
            };
            let session_id = owned(as_text(value.get("session_id")));
            match parse_structured_output(value, harness) {
                Err(e) => {
                    return Err(e);
                },
                Ok(Some(found)) => {
                    return Ok(StageResult { text: found.1, session_id, signal: found.0 });
                },
                Ok(None) => {},
            }
            if let Some(signal) = parse_signal(text.as_str()) {
                return Ok(StageResult { text, session_id, signal });
            }
            if error.is_none() && is_true(value.get("is_error")) {
                error = Some(text);
            }
        }
        i -= 1;
    }
    if !any {
        return fail(cat2(harness.title.as_str(), " stream ended without a result event"));
    }
    match error {
        Some(text) => fail(cat3(harness.title.as_str(), " reported an error: ", text.as_str())),
        None => {
            let option = harness.raw_option();
            fail(
                cat4(
                    harness.title.as_str(),
                    NO_STREAM_TERMINAL,
                    option.as_str(),
                    " to inspect them",
                ),
            )
        },
    }
}

/// Reads the result of a stage off a stream.
pub fn parse_claude_stream_output(stdout: &str, harness: &Harness) -> (r: Result<
    ClaudeResult,
    Failure,
>)
    ensures
        outcome(r) == stream_result(line_documents(lines_of(stdout@)), harness@),
{
    let values = parse_lines(stdout);
    result_from_events(&values, harness)
}

/// A terminal result that was reported stays the result of the stage, whatever later
/// events without one are reported.
pub proof fn law_later_events_do_not_hide_a_result(values: Seq<Json>, later: Json, h: HarnessView)
    requires
        !result_event(later) || (structured_result(later, h) matches Ok(None) && last_signal(
            lines_of(result_text(later)),
        ) is None),
        last_result(values, h) is Some,
    ensures
        stream_result(values.push(later), h) == stream_result(values, h),
{
    let more = values.push(later);
    assert(more.drop_last() =~= values);
    lemma_result_there(values, h);
    let i = choose|i: int| 0 <= i < values.len() && result_event(#[trigger] values[i]);
    assert(result_event(more[i]));
}

proof fn lemma_result_there(values: Seq<Json>, h: HarnessView)
    requires
        last_result(values, h) is Some,
    ensures
        has_result(values),
    decreases values.len(),
{
    if values.len() > 0 {
        if result_event(values.last()) {
            assert(result_event(values[values.len() - 1]));
        } else {
            lemma_result_there(values.drop_last(), h);
            let front = values.drop_last();
            let i = choose|i: int| 0 <= i < front.len() && result_event(#[trigger] front[i]);
            assert(result_event(values[i]));
        }
    }
}

/// A limit that comes after the last terminal result has to be recovered from; one that
/// the stage recovered from by itself does not.
pub proof fn law_only_an_unrecovered_limit_counts(
    values: Seq<Json>,
    last: Json,
    success: bool,
    text: Seq<char>,
)
    requires
        terminal_in(last),
        !limit_in(last),
        last_limit(values) is Some,
    ensures
        !limit_reached(values.push(last), success, text),
{
    let more = values.push(last);
    assert(more.drop_last() =~= values);
    lemma_last_limit(values);
}

proof fn lemma_last_limit(values: Seq<Json>)
    ensures
        last_limit(values) matches Some(k) ==> 0 <= k < values.len(),
    decreases values.len(),
{
    if values.len() > 0 {
        lemma_last_limit(values.drop_last());
    }
}

/// The answer of a connection that is tried, from the documents of its output, or why it
/// does not work.
pub open spec fn test_answer(values: Seq<Json>, output: ProcessOutput, h: HarnessView) -> Result<
    Seq<char>,
    Seq<char>,
> {
    if !output.success {
        Err(
            h.title + " connection test failed (exit "@ + match output.code {
                Some(code) => signed_decimal(code as int),
                None => "signal"@,
            } + "): "@ + diagnostic(output),
        )
    } else {
        match last_document(values) {
            None => Err(h.title + " connection test returned no machine-readable result"@),
            Some(result) => {
                let text = trimmed(result_text(result));
                if bool_in(member(result, "is_error"@)) == Some(true) {
                    Err(h.title + " connection test reported an error: "@ + text)
                } else if text.len() == 0 {
                    Err(h.title + " connection test returned an empty model response"@)
                } else {
                    Ok(text)
                }
            },
        }
    }
}

/// The last document that is a result.
pub open spec fn last_document(values: Seq<Json>) -> Option<Json>
    decreases values.len(),
{
    if values.len() == 0 {
        None
    } else if result_document(values.last()) {
        Some(values.last())
    } else {
        last_document(values.drop_last())
    }
}

/// Decides whether a connection works, from the documents of its output.
pub fn connection_test_answer(
    values: &Vec<Json>,
    output: &ProcessOutput,
    harness: &Harness,
) -> (r: Result<String, Failure>)
    ensures
        outcome(r) == test_answer(values@, *output, harness@),
{
    if !output.success {
        let code = match output.code {
            Some(code) => signed_text(code as i64),
            None => "signal".to_owned(),
        };
        let rest = diagnostic_text(output);
        return fail(
            cat5(
                harness.title.as_str(),
                " connection test failed (exit ",
                code.as_str(),
                "): ",
                rest.as_str(),
            ),
        );
    }
    let mut i: usize = values.len();
    assert(values@.take(i as int) =~= values@);
    while i > 0
        invariant
            i <= values@.len(),
            output.success,
            last_document(values@) == last_document(values@.take(i as int)),
        decreases i,
    {
        proof {
            let upto = values@.take(i as int);
            assert(upto.last() == values@[i - 1]);
            assert(upto.drop_last() =~= values@.take(i - 1));
        }
        let result = &values[i - 1];
        if is_result_document(result) {
            let text = match as_text(result.get("result")) {
                Some(text) => trim(text),
                None => trim(""),
            };
            if is_true(result.get("is_error")) {
                return fail(
                    cat3(
                        harness.title.as_str(),
                        " connection test reported an error: ",
                        text.as_str(),
                    ),
                );
            }
            if chars_of(text.as_str()).len() == 0 {
                return fail(
                    cat2(
                        harness.title.as_str(),
                        " connection test returned an empty model response",
                    ),
                );
            }
            return Ok(text);
        }
        i -= 1;
    }
    fail(
        cat2(
            harness.title.as_str(),
            " connection test returned no machine-readable result",
        ),
    )
}

/// Reads the answer of a connection that is tried.
pub fn parse_connection_test_output(output: &ProcessOutput, harness: &Harness) -> (r: Result<
    String,
    Failure,
>)
    ensures
        outcome(r) == test_answer(documents_of(output.stdout@), *output, harness@),
{
    let values = parse_output_values(output.stdout.as_str());
    connection_test_answer(&values, output, harness)
}

/// Whether a diagnostic says that an option is not known.
pub open spec fn unknown_option(low: Seq<char>) -> bool {
    contains_text(low, "unknown option"@) || contains_text(low, "unrecognized option"@)
        || contains_text(low, "unexpected argument"@)
}

fn unsupported_option(low: &str) -> (r: bool)
    ensures
        r == unknown_option(low@),
{
    contains(low, "unknown option") || contains(low, "unrecognized option") || contains(
        low,
        "unexpected argument",
    )
}

/// Whether the harness does not know the options of its output format.
pub open spec fn format_rejected(output: ProcessOutput) -> bool {
    let low = lowered(printed(output));
    unknown_option(low) && (contains_text(low, "output-format"@) || contains_text(
        low,
        "input-format"@,
    ))
}

pub fn unsupported_json_option(output: &ProcessOutput) -> (r: bool)
    ensures
        r == format_rejected(*output),
{
    let all = printed_text(output);
    let low = to_lower(all.as_str());
    unsupported_option(low.as_str()) && (contains(low.as_str(), "output-format") || contains(
        low.as_str(),
        "input-format",
    ))
}

/// Whether the harness does not know the option of its schema.
pub open spec fn schema_rejected(output: ProcessOutput) -> bool {
    let low = lowered(printed(output));
    unknown_option(low) && contains_text(low, "json-schema"@)
}

pub fn unsupported_schema_option(output: &ProcessOutput) -> (r: bool)
    ensures
        r == schema_rejected(*output),
{
    let all = printed_text(output);
    let low = to_lower(all.as_str());
    unsupported_option(low.as_str()) && contains(low.as_str(), "json-schema")
}

/// A conversation, as it is shown.
pub open spec fn described(session: SessionModeView) -> Seq<char> {
    match session {
        SessionModeView::New { id, name } => match name {
            Some(name) => "new "@ + id + ", name `"@ + name + "`"@,
            None => "new "@ + id,
        },
        SessionModeView::Resume { id } => "resume "@ + id,
    }
}

pub fn session_description(session: &SessionMode) -> (r: String)
    ensures
        r@ == described(session@),
{
    match session {
        SessionMode::New { id, name } => match name {
            Some(name) => cat5("new ", id.as_str(), ", name `", name.as_str(), "`"),
            None => cat2("new ", id.as_str()),
        },
        SessionMode::Resume { id } => cat2("resume ", id.as_str()),
    }
}

pub const CONTINUE_1: &'static str = "The preceding ";

pub const CONTINUE_2: &'static str =
    " turn reached its output token limit before this opsx-build phase produced a terminal result. Continue the same phase from the existing ";

pub const CONTINUE_3: &'static str =
    " session and durable repository state. Preserve correct completed work, do not restart the phase, and finish the outstanding work now.";

/// What the harness is asked after it stopped at the limit on output tokens.
pub open spec fn continuing(h: HarnessView) -> Seq<char> {
    CONTINUE_1@ + h.title + CONTINUE_2@ + h.title + CONTINUE_3@
}

pub fn output_limit_continuation_prompt(protocol: StageProtocol, harness: &Harness) -> (r: String)
    ensures
        r@ == prompt_of(""@, continuing(harness@), protocol),
{
    let title = harness.title.as_str();
    let task = cat5(CONTINUE_1, title, CONTINUE_2, title, CONTINUE_3);
    stage_prompt("", task.as_str(), protocol)
}

/// The harness, as a run uses it. The time that a stage may take is in milliseconds.
pub struct ClaudeClient<'a> {
    pub repo: &'a str,
    pub launcher: &'a ClaudeLauncher,
    pub permission_mode: &'a str,
    pub stream_transport: bool,
    pub stream_filter: Option<StreamFilter>,
    pub max_output_retries: u32,
    pub stage_timeout: Option<u64>,
    pub harness: &'a Harness,
}

/// One attempt at a stage: how the harness is asked to write, and whether it is the
/// first.
#[derive(Debug, Clone, Copy, PartialEq, Eq, Structural)]
pub struct Attempt {
    pub format: ClaudeOutputFormat,
    pub use_schema: bool,
    pub first: bool,
}

/// How an attempt ended.
#[derive(Debug, Clone)]
pub enum AttemptStep {
    /// With a result.
    Complete(ClaudeResult),
    /// At the limit on output tokens.
    OutputLimit,
    /// With an option that the harness does not know: another attempt, after a warning.
    Again(Attempt, String),
    /// With nothing to go on with.
    Failed(Failure),
}

pub enum AttemptView {
    Complete(ResultView),
    OutputLimit,
    Again(Attempt, Seq<char>),
    Failed(Seq<char>),
}

impl View for AttemptStep {
    type V = AttemptView;

    open spec fn view(&self) -> AttemptView {
        match self {
            AttemptStep::Complete(result) => AttemptView::Complete(result@),
            AttemptStep::OutputLimit => AttemptView::OutputLimit,
            AttemptStep::Again(attempt, warning) => AttemptView::Again(*attempt, warning@),
            AttemptStep::Failed(failure) => AttemptView::Failed(failure.message@),
        }
    }
}

pub const SCHEMA_REJECTED: &'static str =
    " rejected --json-schema; using the terminal-marker compatibility protocol";

/// The next format down.
pub open spec fn plainer(format: ClaudeOutputFormat) -> ClaudeOutputFormat {
    match format {
        ClaudeOutputFormat::StreamJson => ClaudeOutputFormat::Json,
        _ => ClaudeOutputFormat::Text,
    }
}

/// What an attempt comes to, given what the harness left behind.
pub open spec fn attempt_outcome(a: Attempt, output: ProcessOutput, h: HarnessView) -> AttemptView {
    let failure = h.title + " stage failed: "@ + diagnostic(output);
    if limit_reached(documents_of(output.stdout@), output.success, printed(output)) {
        AttemptView::OutputLimit
    } else if output.success {
        match (
            if a.format == ClaudeOutputFormat::StreamJson {
                stream_result(line_documents(lines_of(output.stdout@)), h)
            } else {
                result_of(parsed_json(output.stdout@), output.stdout@, h)
            }
        ) {
            Ok(result) => AttemptView::Complete(result),
            Err(message) => AttemptView::Failed(message),
        }
    } else if a.use_schema && schema_rejected(output) {
        AttemptView::Again(
            Attempt { use_schema: false, first: false, ..a },
            h.title + SCHEMA_REJECTED@,
        )
    } else if format_rejected(output) && a.format != ClaudeOutputFormat::Text {
        AttemptView::Again(
            Attempt {
                format: plainer(a.format),
                use_schema: a.use_schema && plainer(a.format) != ClaudeOutputFormat::Text,
                first: false,
            },
            h.title + " rejected "@ + a.format.title() + "; retrying with "@ + plainer(
                a.format,
            ).title(),
        )
    } else {
        AttemptView::Failed(failure)
    }
}

/// How many steps down an attempt still has.
pub open spec fn attempts_left(a: Attempt) -> int {
    (match a.format {
        ClaudeOutputFormat::Text => 0int,
        ClaudeOutputFormat::Json => 2,
        ClaudeOutputFormat::StreamJson => 4,
    }) + if a.use_schema {
        1int
    } else {
        0
    }
}

/// Each further attempt asks the harness for less, so that there are at most five after
/// the first.
pub proof fn law_attempts_end(a: Attempt, output: ProcessOutput, h: HarnessView)
    ensures
        attempt_outcome(a, output, h) matches AttemptView::Again(next, _) ==> 0 <= attempts_left(next)
            < attempts_left(a) <= 5,
{
}

/// Where the harness stands in a stage: the conversation, what is asked next, and how
/// often it stopped at the limit on output tokens.
#[derive(Debug, Clone)]
pub struct Invocation {
    pub session: SessionMode,
    pub prompt: String,
    pub activity: String,
    pub recoveries: u32,
}

pub struct InvocationView {
    pub session: SessionModeView,
    pub prompt: Seq<char>,
    pub activity: Seq<char>,
    pub recoveries: u32,
}

impl View for Invocation {
    type V = InvocationView;

    open spec fn view(&self) -> InvocationView {
        InvocationView {
            session: self.session@,
            prompt: self.prompt@,
            activity: self.activity@,
            recoveries: self.recoveries,
        }
    }
}

pub const LIMIT_PHASE: &'static str = "an output-limit interruption";

/// The next invocation after a stop at the limit.
pub open spec fn continued(
    i: InvocationView,
    activity: Seq<char>,
    protocol: StageProtocol,
    retries: u32,
    h: HarnessView,
) -> InvocationView {
    InvocationView {
        session: SessionModeView::Resume { id: i.session.id() },
        prompt: prompt_of(""@, continuing(h), protocol),
        activity: activity + " (output-limit continuation "@ + decimal((i.recoveries + 1) as nat)
            + "/"@ + decimal(retries as nat) + ")"@,
        recoveries: (i.recoveries + 1) as u32,
    }
}

/// The warning about a stop at the limit.
pub open spec fn limit_warning(recoveries: int, retries: u32, h: HarnessView) -> Seq<char> {
    h.title + " reached its output token limit; compacting and continuing the same phase ("@
        + decimal(recoveries as nat) + "/"@ + decimal(retries as nat) + ")"@
}

/// Why the frontier model is asked after too many stops.
pub open spec fn exhausted(retries: u32) -> Seq<char> {
    "local worker exhausted "@ + decimal(retries as nat)
        + " output-limit recovery attempt(s)"@
}

/// What is said where a conversation could not be compacted.
pub open spec fn not_compacted(phase: Seq<char>, why: Seq<char>, h: HarnessView) -> Seq<char> {
    "Could not compact "@ + h.title + " context after "@ + phase
        + "; continuing with the existing session: "@ + why
}

impl<'a> ClaudeClient<'a> {
    pub fn new(
        repo: &'a str,
        launcher: &'a ClaudeLauncher,
        permission_mode: &'a str,
        stream_transport: bool,
        stream_filter: Option<StreamFilter>,
        max_output_retries: u32,
        harness: &'a Harness,
    ) -> (r: ClaudeClient<'a>)
        ensures
            r == (ClaudeClient {
                repo,
                launcher,
                permission_mode,
                stream_transport: stream_transport || stream_filter is Some,
                stream_filter,
                max_output_retries,
                stage_timeout: None,
                harness,
            }),
    {
        ClaudeClient {
            repo,
            launcher,
            permission_mode,
            stream_transport: stream_transport || stream_filter.is_some(),
            stream_filter,
            max_output_retries,
            stage_timeout: None,
            harness,
        }
    }

    /// The harness with a bound on a stage, which it can keep only while it streams.
    pub fn with_stage_timeout(self, timeout: u64) -> (r: ClaudeClient<'a>)
        ensures
            r == (ClaudeClient { stream_transport: true, stage_timeout: Some(timeout), ..self }),
    {
        ClaudeClient {
            repo: self.repo,
            launcher: self.launcher,
            permission_mode: self.permission_mode,
            stream_transport: true,
            stream_filter: self.stream_filter,
            max_output_retries: self.max_output_retries,
            stage_timeout: Some(timeout),
            harness: self.harness,
        }
    }

    /// The first attempt at a stage.
    pub fn first_attempt(&self) -> (r: Attempt)
        ensures
            r == (Attempt {
                format: if self.stream_transport {
                    ClaudeOutputFormat::StreamJson
                } else {
                    ClaudeOutputFormat::Json
                },
                use_schema: true,
                first: true,
            }),
    {
        let format = if self.stream_transport {
            ClaudeOutputFormat::StreamJson
        } else {
            ClaudeOutputFormat::Json
        };
        Attempt { format, use_schema: true, first: true }
    }

    /// The command of an attempt.
    pub fn attempt_command(
        &self,
        attempt: Attempt,
        session: &SessionMode,
        prompt: &str,
        protocol: StageProtocol,
    ) -> (r: CommandSpec)
        ensures
            r@ == stage_command(
                self.repo@,
                self.launcher@,
                self.permission_mode@,
                session@,
                prompt@,
                attempt.format,
                if attempt.use_schema {
                    Some(protocol.schema())
                } else {
                    None
                },
            ),
    {
        let schema = if attempt.use_schema {
            Some(protocol.json_schema())
        } else {
            None
        };
        build_claude_command(
            self.repo,
            self.launcher,
            self.permission_mode,
            session,
            prompt,
            attempt.format,
            schema,
        )
    }

    /// Whether an attempt is shown while it goes on: the first one, if it streams.
    pub fn attempt_streams(&self, attempt: Attempt) -> (r: bool)
        ensures
            r == (attempt.first && attempt.format == ClaudeOutputFormat::StreamJson),
    {
        attempt.first && attempt.format == ClaudeOutputFormat::StreamJson
    }

    /// Begins a stage.
    pub fn begin(&self, session: SessionMode, prompt: &str, activity: &str) -> (r: Invocation)
        ensures
            r@ == (InvocationView {
                session: session@,
                prompt: prompt@,
                activity: activity@,
                recoveries: 0,
            }),
    {
        Invocation {
            session,
            prompt: prompt.to_owned(),
            activity: activity.to_owned(),
            recoveries: 0,
        }
    }

    /// Goes on after a stop at the limit on output tokens: with a warning and the next
    /// invocation, which follows a compaction, or, after too many, with the reason why
    /// the frontier model is asked.
    pub fn after_output_limit(
        &self,
        invocation: &Invocation,
        activity: &str,
        protocol: StageProtocol,
    ) -> (r: Result<(String, Invocation), String>)
        ensures
            match r {
                Ok(next) => {
                    &&& invocation.recoveries < self.max_output_retries
                    &&& next.0@ == limit_warning(
                        invocation.recoveries + 1,
                        self.max_output_retries,
                        self.harness@,
                    )
                    &&& next.1@ == continued(
                        invocation@,
                        activity@,
                        protocol,
                        self.max_output_retries,
                        self.harness@,
                    )
                },
                Err(reason) => {
                    &&& invocation.recoveries >= self.max_output_retries
                    &&& reason@ == exhausted(self.max_output_retries)
                },
            },
    {
        let limit = decimal_text(self.max_output_retries as u64);
        if invocation.recoveries < self.max_output_retries {
            let recoveries: u32 = invocation.recoveries + 1;
            let count = decimal_text(recoveries as u64);
            let start = cat2(
                self.harness.title.as_str(),
                " reached its output token limit; compacting and continuing the same phase (",
            );
            let warning = cat5(
                start.as_str(),
                count.as_str(),
                "/",
                limit.as_str(),
                ")",
            );
            let head = cat2(activity, " (output-limit continuation ");
            let next = Invocation {
                session: SessionMode::Resume { id: invocation.session.id().copy() },
                prompt: output_limit_continuation_prompt(protocol, self.harness),
                activity: cat5(head.as_str(), count.as_str(), "/", limit.as_str(), ")"),
                recoveries,
            };
            Ok((warning, next))
        } else {
            Err(
                cat3(
                    "local worker exhausted ",
                    limit.as_str(),
                    " output-limit recovery attempt(s)",
                ),
            )
        }
    }

    /// The command that compacts a conversation.
    pub fn compaction(&self, session_id: &SessionId) -> (r: CommandSpec)
        ensures
            r@ == compact_command(
                self.repo@,
                self.launcher@,
                self.permission_mode@,
                session_id@,
                if self.stream_transport {
                    ClaudeOutputFormat::StreamJson
                } else {
                    ClaudeOutputFormat::Text
                },
            ),
    {
        let format = if self.stream_transport {
            ClaudeOutputFormat::StreamJson
        } else {
            ClaudeOutputFormat::Text
        };
        build_compact_command(self.repo, self.launcher, self.permission_mode, session_id, format)
    }

    /// The command that names a conversation.
    pub fn renaming(&self, session_id: &SessionId, name: &str) -> (r: CommandSpec)
        ensures
            r@ == stage_command(
                self.repo@,
                self.launcher@,
                self.permission_mode@,
                SessionModeView::Resume { id: session_id@ },
                "/rename "@ + name@,
                ClaudeOutputFormat::Json,
                None,
            ),
    {
        let prompt = cat2("/rename ", name);
        build_claude_command(
            self.repo,
            self.launcher,
            self.permission_mode,
            &SessionMode::Resume { id: session_id.copy() },
            prompt.as_str(),
            ClaudeOutputFormat::Json,
            None,
        )
    }
}

/// Decides what an attempt comes to.
pub fn after_attempt(attempt: Attempt, output: &ProcessOutput, harness: &Harness) -> (r: AttemptStep)
    ensures
        r@ == attempt_outcome(attempt, *output, harness@),
{
    if output_hit_token_limit(output) {
        return AttemptStep::OutputLimit;
    }
    if output.success {
        let result = match attempt.format {
            ClaudeOutputFormat::StreamJson => parse_claude_stream_output(
                output.stdout.as_str(),
                harness,
            ),
            _ => parse_claude_output(output.stdout.as_str(), harness),
        };
        return match result {
            Ok(result) => AttemptStep::Complete(result),
            Err(e) => AttemptStep::Failed(e),
        };
    }
    if attempt.use_schema && unsupported_schema_option(output) {
        return AttemptStep::Again(
            Attempt { format: attempt.format, use_schema: false, first: false },
            cat2(harness.title.as_str(), SCHEMA_REJECTED),
        );
    }
    if unsupported_json_option(output) && attempt.format != ClaudeOutputFormat::Text {
        let format = match attempt.format {
            ClaudeOutputFormat::StreamJson => ClaudeOutputFormat::Json,
            _ => ClaudeOutputFormat::Text,
        };
        let warning = cat5(
            harness.title.as_str(),
            " rejected ",
            format_name(attempt.format),
            "; retrying with ",
            format_name(format),
        );
        return AttemptStep::Again(
            Attempt {
                format,
                use_schema: attempt.use_schema && format != ClaudeOutputFormat::Text,
                first: false,
            },
            warning,
        );
    }
    let rest = diagnostic_text(output);
    AttemptStep::Failed(Failure::new(cat3(harness.title.as_str(), " stage failed: ", rest.as_str())))
}

/// How long a stage may still take, of a time that is bounded.
pub fn time_left(timeout: Option<u64>, elapsed: u64) -> (r: Option<u64>)
    ensures
        r == match timeout {
            Some(limit) => Some(if elapsed >= limit { 0 } else { (limit - elapsed) as u64 }),
            None => None,
        },
{
    match timeout {
        Some(limit) => Some(
            if elapsed >= limit {
                0
            } else {
                limit - elapsed
            },
        ),
        None => None,
    }
}

/// What is said of a compaction that ended, if anything is: one that failed is no reason
/// to stop.
pub fn compaction_warning(output: &ProcessOutput, completed_phase: &str, harness: &Harness) -> (r: Option<
    String,
>)
    ensures
        text_option(r) == if output.success {
            None
        } else {
            Some(not_compacted(completed_phase@, diagnostic(*output), harness@))
        },
{
    if output.success {
        None
    } else {
        let why = diagnostic_text(output);
        Some(compaction_failure(completed_phase, why.as_str(), harness))
    }
}

/// What is said of a compaction that could not be run.
pub fn compaction_failure(completed_phase: &str, error: &str, harness: &Harness) -> (r: String)
    ensures
        r@ == not_compacted(completed_phase@, error@, harness@),
{
    let start = cat3("Could not compact ", harness.title.as_str(), " context after ");
    cat4(
        start.as_str(),
        completed_phase,
        "; continuing with the existing session: ",
        error,
    )
}

/// Whether a conversation was named.
pub fn rename_outcome(output: &ProcessOutput) -> (r: Result<(), Failure>)
    ensures
        if output.success {
            r is Ok
        } else {
            failed(r, "session rename failed: "@ + diagnostic(*output))
        },
{
    if output.success {
        Ok(())
    } else {
        let why = diagnostic_text(output);
        fail(cat2("session rename failed: ", why.as_str()))
    }
}

/// Stops at the limit on output tokens are recovered from a bounded number of times, in
/// one conversation.
pub proof fn law_limit_recoveries_are_bounded(
    i: InvocationView,
    activity: Seq<char>,
    protocol: StageProtocol,
    retries: u32,
    h: HarnessView,
)
    requires
        i.recoveries < retries,
    ensures
        continued(i, activity, protocol, retries, h).recoveries == i.recoveries + 1,
        continued(i, activity, protocol, retries, h).recoveries <= retries,
        continued(i, activity, protocol, retries, h).session.id() == i.session.id(),
{
}

/// The first word of a command is its program and the others come before everything else.
/// A command without words is refused.
pub proof fn law_launchers_begin_with_their_command(
    command: Seq<char>,
    model: Option<Seq<char>>,
    window: Option<u64>,
    percent: Option<u8>,
    tokens: Option<u64>,
    h: HarnessView,
)
    ensures
        ({
            let words = command_words(command, h.command_option());
            let r = parsed_launcher(command, model, window, percent, tokens, h);
            &&& r is Ok <==> words is Ok && words->Ok_0.len() > 0
            &&& words matches Err(message) ==> r == Err::<LauncherView, _>(message)
            &&& r matches Ok(l) ==> {
                &&& seq![l.program] + l.prefix_args == words->Ok_0
                &&& l.model == model
                &&& l.auto_compact_window == window
                &&& l.auto_compact_percent == percent
                &&& l.max_output_tokens == tokens
                &&& l.connection_name is None
                &&& l.environment_name is None
                &&& l.environment.len() == 0
                &&& l.unset_environment.len() == 0
            }
        }),
{
    let words = command_words(command, h.command_option());
    if words is Ok && words->Ok_0.len() > 0 {
        let w = words->Ok_0;
        assert(seq![w[0]] + w.skip(1) =~= w);
    }
}

proof fn lemma_hidden(isolate: bool, listed: Seq<Seq<char>>, h: HarnessView)
    ensures
        hidden(isolate, listed, h) is Ok <==> forall|i: int|
            0 <= i < listed.len() ==> template_name(#[trigger] listed[i]),
        hidden(isolate, listed, h) matches Ok(r) ==> {
            &&& isolate ==> connection_variables().is_prefix_of(r)
            &&& forall|x: Seq<char>|
                #![trigger r.contains(x)]
                r.contains(x) <==> listed.contains(x) || (isolate
                    && connection_variables().contains(x))
        },
    decreases listed.len(),
{
    if listed.len() == 0 {
        let v = connection_variables();
        assert(v.subrange(0, v.len() as int) =~= v);
    } else {
        let rest = listed.drop_last();
        lemma_hidden(isolate, rest, h);
        assert forall|i: int| 0 <= i < rest.len() implies rest[i] == listed[i] by {}
        if hidden(isolate, rest, h) is Err {
            let i = choose|i: int| 0 <= i < rest.len() && !template_name(#[trigger] rest[i]);
            assert(!template_name(listed[i]));
        } else {
            let so_far = hidden(isolate, rest, h)->Ok_0;
            if template_name(listed.last()) {
                assert forall|i: int| 0 <= i < listed.len() implies template_name(
                    #[trigger] listed[i],
                ) by {
                    if i < rest.len() {
                        assert(template_name(rest[i]));
                    }
                }
                let r = hidden(isolate, listed, h)->Ok_0;
                if isolate {
                    let v = connection_variables();
                    assert(r.subrange(0, v.len() as int) =~= so_far.subrange(0, v.len() as int));
                }
                assert forall|x: Seq<char>|
                    #![trigger r.contains(x)]
                    r.contains(x) <==> listed.contains(x) || (isolate
                        && connection_variables().contains(x)) by {
                    assert(so_far.contains(x) <==> rest.contains(x) || (isolate
                        && connection_variables().contains(x)));
                    if listed.contains(x) {
                        let i = choose|i: int| 0 <= i < listed.len() && listed[i] == x;
                        if i < rest.len() {
                            assert(rest[i] == x);
                        }
                    }
                    if rest.contains(x) {
                        let i = choose|i: int| 0 <= i < rest.len() && rest[i] == x;
                        assert(listed[i] == x);
                    }
                    assert(listed[listed.len() - 1] == listed.last());
                    if !so_far.contains(listed.last()) {
                        assert(r[so_far.len() as int] == listed.last());
                        if so_far.contains(x) {
                            let i = choose|i: int| 0 <= i < so_far.len() && so_far[i] == x;
                            assert(r[i] == x);
                        }
                        if r.contains(x) {
                            let i = choose|i: int| 0 <= i < r.len() && r[i] == x;
                            if i < so_far.len() {
                                assert(so_far[i] == x);
                            }
                        }
                    }
                }
            } else {
                assert(!template_name(listed[listed.len() - 1]));
            }
        }
    }
}

/// An isolated connection inherits none of the variables that reach the service. Any
/// connection loses the variables that it lists, and no others.
pub proof fn law_isolated_connections_inherit_no_service(
    isolate: bool,
    listed: Seq<Seq<char>>,
    h: HarnessView,
    x: Seq<char>,
)
    ensures
        hidden(isolate, listed, h) is Ok <==> forall|i: int|
            0 <= i < listed.len() ==> template_name(#[trigger] listed[i]),
        hidden(isolate, listed, h) matches Ok(r) ==> {
            &&& listed.contains(x) ==> r.contains(x)
            &&& !isolate && !listed.contains(x) ==> !r.contains(x)
            &&& isolate ==> r.contains("ANTHROPIC_API_KEY"@) && r.contains("ANTHROPIC_AUTH_TOKEN"@)
                && r.contains("ANTHROPIC_BASE_URL"@) && r.contains("ANTHROPIC_CUSTOM_HEADERS"@)
                && r.contains("ANTHROPIC_AWS_BASE_URL"@) && r.contains(
                "ANTHROPIC_BEDROCK_BASE_URL"@,
            ) && r.contains("ANTHROPIC_BEDROCK_MANTLE_BASE_URL"@) && r.contains(
                "ANTHROPIC_FOUNDRY_BASE_URL"@,
            ) && r.contains("ANTHROPIC_VERTEX_BASE_URL"@) && r.contains("CLAUDE_CODE_OAUTH_TOKEN"@)
                && r.contains("CLAUDE_CODE_USE_ANTHROPIC_AWS"@) && r.contains(
                "CLAUDE_CODE_USE_BEDROCK"@,
            ) && r.contains("CLAUDE_CODE_USE_FOUNDRY"@) && r.contains("CLAUDE_CODE_USE_MANTLE"@)
                && r.contains("CLAUDE_CODE_USE_VERTEX"@)
        },
{
    lemma_hidden(isolate, listed, h);
    if isolate && hidden(isolate, listed, h) is Ok {
        let v = connection_variables();
        let r = hidden(isolate, listed, h)->Ok_0;
        assert forall|i: int| 0 <= i < v.len() implies r.contains(#[trigger] v[i]) by {
            assert(v.contains(v[i]));
        }
        assert(r.contains(v[0]) && r.contains(v[1]) && r.contains(v[2]) && r.contains(v[3]));
        assert(r.contains(v[4]) && r.contains(v[5]) && r.contains(v[6]) && r.contains(v[7]));
        assert(r.contains(v[8]) && r.contains(v[9]) && r.contains(v[10]) && r.contains(v[11]));
        assert(r.contains(v[12]) && r.contains(v[13]) && r.contains(v[14]));
    }
}

/// A command of a stage has one slash in front, whether it was written with it or without.
/// The one that is asked for comes first, then the skill of the repository, then its command.
pub proof fn law_stage_commands_have_a_slash(
    command: Seq<char>,
    h: HarnessView,
    stage: Seq<char>,
    present: Seq<Seq<char>>,
)
    ensures
        command.len() > 0 && command[0] == '/' ==> slashed(command) == command,
        !(command.len() > 0 && command[0] == '/') ==> slashed(command) == seq!['/'] + command,
        discovered(Some(command), h, stage, present) == Ok::<_, Seq<char>>(slashed(command)),
        bundled(Some(command), stage) == slashed(command),
        bundled(None, stage) == seq!['/'] + stage,
        ({
            let skill = h.directory() + "/skills/openspec-"@ + stage + "-change/SKILL.md"@;
            let file = h.directory() + "/commands/opsx/"@ + stage + ".md"@;
            let directory = h.directory() + "/commands/opsx/"@ + stage;
            let r = discovered(None, h, stage, present);
            &&& present.contains(skill) ==> r == Ok::<_, Seq<char>>(
                "/openspec-"@ + stage + "-change"@,
            )
            &&& !present.contains(skill) && (present.contains(file) || present.contains(directory))
                ==> r == Ok::<_, Seq<char>>("/opsx:"@ + stage)
            &&& r is Err <==> !present.contains(skill) && !present.contains(file)
                && !present.contains(directory)
        }),
{
    reveal_strlit("/");
    assert("/"@ =~= seq!['/']);
    if command.len() > 0 {
        assert(command.subrange(0, 1)[0] == command[0]);
        if command[0] == '/' {
            assert(command.subrange(0, 1) =~= "/"@);
        }
    }
}

/// A stage is carried out in its repository by the program of its launcher, with the
/// permission mode and the conversation that it is given. The prompt is handed over once: on
/// the input where the harness streams, and as the last word otherwise.
pub proof fn law_stages_hand_over_their_prompt(
    repo: Seq<char>,
    l: LauncherView,
    permission_mode: Seq<char>,
    session: SessionModeView,
    prompt: Seq<char>,
    format: ClaudeOutputFormat,
    schema: Option<Seq<char>>,
)
    ensures
        ({
            let c = stage_command(repo, l, permission_mode, session, prompt, format, schema);
            let streams = format == ClaudeOutputFormat::StreamJson;
            let options = session_args(session);
            let end = if streams {
                c.args.len() as int
            } else {
                c.args.len() - 1
            };
            &&& c.program == l.program
            &&& c.cwd == repo
            &&& streams ==> c.initial_stdin == Some(user_message(prompt))
                && c.accepts_stream_messages
            &&& !streams ==> c.args.last() == prompt && c.initial_stdin is None
                && !c.accepts_stream_messages
            &&& l.prefix_args.is_prefix_of(c.args)
            &&& l.model matches Some(m) ==> c.args[l.prefix_args.len() as int] == "--model"@
                && c.args[l.prefix_args.len() as int + 1] == m
            &&& end >= options.len() + 3
            &&& schema is Some ==> end >= options.len() + 5
            &&& c.args.subrange(end - options.len(), end) == options
            &&& c.args[end - options.len() - 1] == permission_mode
            &&& c.args[end - options.len() - 2] == "--permission-mode"@
            &&& schema matches Some(s) ==> c.args[end - options.len() - 3] == s
                && c.args[end - options.len() - 4] == "--json-schema"@
        }),
{
    let c = stage_command(repo, l, permission_mode, session, prompt, format, schema);
    let bare = CommandView {
        args: stage_args(l, permission_mode, session, prompt, format, schema),
        ..bare_command(l.program, repo)
    };
    let full = if format == ClaudeOutputFormat::StreamJson {
        CommandView {
            initial_stdin: Some(user_message(prompt)),
            accepts_stream_messages: true,
            ..bare
        }
    } else {
        bare
    };
    crate::launch::law_commands_get_their_environment(full, l.unset_environment, l.environment);
    let options = session_args(session);
    let end = if format == ClaudeOutputFormat::StreamJson {
        c.args.len() as int
    } else {
        c.args.len() - 1
    };
    assert(c.args == bare.args);
    assert(c.args.subrange(end - options.len(), end) =~= options);
    assert(c.args.subrange(0, l.prefix_args.len() as int) =~= l.prefix_args);
}

/// A conversation is begun under its identifier and its name, or taken up by its identifier.
pub proof fn law_conversations_go_by_their_identifier(id: Seq<char>, name: Seq<char>)
    ensures
        session_args(SessionModeView::New { id, name: Some(name) }) == seq![
            "--session-id"@,
            id,
            "--name"@,
            name,
        ],
        session_args(SessionModeView::New { id, name: None }) == seq!["--session-id"@, id],
        session_args(SessionModeView::Resume { id }) == seq!["--resume"@, id],
        (id).is_suffix_of(described(SessionModeView::Resume { id })),
        described(SessionModeView::New { id, name: None }) == "new "@ + id,
{
    let r = described(SessionModeView::Resume { id });
    assert(r.subrange(r.len() - id.len(), r.len() as int) =~= id);
}

/// The limits of a launcher are set as variables, each where it is there, behind what the
/// command sets already. Nothing else of the command changes.
pub proof fn law_limits_are_set(c: CommandView, l: LauncherView)
    ensures
        ({
            let r = with_limits(c, l);
            let window = l.auto_compact_window is Some;
            let percent = l.auto_compact_percent is Some;
            let tokens = l.max_output_tokens is Some;
            &&& (CommandView { env: c.env, ..r }) == c
            &&& c.env.is_prefix_of(r.env)
            &&& r.env.len() == c.env.len() + (if window {
                1int
            } else {
                0
            }) + (if percent {
                1int
            } else {
                0
            }) + (if tokens {
                1int
            } else {
                0
            })
            &&& window ==> r.env.contains(
                ("CLAUDE_CODE_AUTO_COMPACT_WINDOW"@, decimal(l.auto_compact_window->0 as nat)),
            )
            &&& percent ==> r.env.contains(
                ("CLAUDE_AUTOCOMPACT_PCT_OVERRIDE"@, decimal(l.auto_compact_percent->0 as nat)),
            )
            &&& tokens ==> r.env.contains(
                ("CLAUDE_CODE_MAX_OUTPUT_TOKENS"@, decimal(l.max_output_tokens->0 as nat)),
            )
        }),
{
    let r = with_limits(c, l);
    let n = c.env.len() as int;
    assert(r.env.subrange(0, n) =~= c.env);
    let w: int = if l.auto_compact_window is Some {
        1
    } else {
        0
    };
    let p: int = if l.auto_compact_percent is Some {
        1
    } else {
        0
    };
    if l.auto_compact_window is Some {
        assert(r.env[n] == (AUTO_COMPACT_ENV@, decimal(l.auto_compact_window->0 as nat)));
    }
    if l.auto_compact_percent is Some {
        assert(r.env[n + w] == (
            AUTO_COMPACT_PERCENT_ENV@,
            decimal(l.auto_compact_percent->0 as nat),
        ));
    }
    if l.max_output_tokens is Some {
        assert(r.env[n + w + p] == (
            MAX_OUTPUT_TOKENS_ENV@,
            decimal(l.max_output_tokens->0 as nat),
        ));
    }
}

/// The documents of an output are those of its lines, in order, and a line that holds none is
/// passed over. An output that is one document is that document.
pub proof fn law_documents_are_read_line_by_line(list: Seq<Seq<char>>, line: Seq<char>)
    ensures
        line_documents(Seq::empty()).len() == 0,
        parsed_json(line) matches Some(v) ==> line_documents(list.push(line))
            == line_documents(list).push(v) && documents_of(line) == seq![v],
        parsed_json(line) is None ==> line_documents(list.push(line)) == line_documents(list)
            && documents_of(line) == line_documents(lines_of(line)),
{
    assert(list.push(line).drop_last() =~= list);
}

proof fn lemma_limit_at(values: Seq<Json>, at: int)
    requires
        -1 <= at < values.len(),
        at >= 0 ==> limit_in(values[at]),
        forall|i: int| at < i < values.len() ==> !limit_in(#[trigger] values[i]),
    ensures
        last_limit(values) == (if at >= 0 {
            Some(at)
        } else {
            None
        }),
    decreases values.len(),
{
    if values.len() > 0 && at < values.len() - 1 {
        assert(!limit_in(values[values.len() - 1]));
        let rest = values.drop_last();
        assert forall|i: int| at < i < rest.len() implies !limit_in(#[trigger] rest[i]) by {
            assert(rest[i] == values[i]);
        }
        lemma_limit_at(rest, at);
    }
}

proof fn lemma_terminal_at(values: Seq<Json>, at: int)
    requires
        -1 <= at < values.len(),
        at >= 0 ==> terminal_in(values[at]),
        forall|i: int| at < i < values.len() ==> !terminal_in(#[trigger] values[i]),
    ensures
        last_terminal(values) == (if at >= 0 {
            Some(at)
        } else {
            None
        }),
    decreases values.len(),
{
    if values.len() > 0 && at < values.len() - 1 {
        assert(!terminal_in(values[values.len() - 1]));
        let rest = values.drop_last();
        assert forall|i: int| at < i < rest.len() implies !terminal_in(#[trigger] rest[i]) by {
            assert(rest[i] == values[i]);
        }
        lemma_terminal_at(rest, at);
    }
}

/// Whether the limit was reached is decided by the last document that tells of it and the
/// last that carries a result: the limit counts where it comes later. Where no document
/// tells of it, what was printed decides, and only of a run that failed.
pub proof fn law_the_later_of_limit_and_result_decides(
    values: Seq<Json>,
    limit: int,
    terminal: int,
    success: bool,
    text: Seq<char>,
)
    requires
        -1 <= limit < values.len(),
        limit >= 0 ==> limit_in(values[limit]),
        forall|i: int| limit < i < values.len() ==> !limit_in(#[trigger] values[i]),
        -1 <= terminal < values.len(),
        terminal >= 0 ==> terminal_in(values[terminal]),
        forall|i: int| terminal < i < values.len() ==> !terminal_in(#[trigger] values[i]),
    ensures
        limit >= 0 ==> limit_reached(values, success, text) == (terminal < limit),
        limit < 0 ==> limit_reached(values, success, text) == (!success && mentions_limit(text)),
{
    lemma_limit_at(values, limit);
    lemma_terminal_at(values, terminal);
}

/// A text tells of the limit on output tokens where one of its names stands in it, in small
/// letters or capitals.
pub proof fn law_limits_are_recognised(before: Seq<char>, name: Seq<char>, after: Seq<char>)
    requires
        lowered(name) == "max_output_tokens"@ || lowered(name) == "max output tokens"@ || lowered(
            name,
        ) == "maximum output tokens"@ || lowered(name) == "output token limit"@ || lowered(name)
            == "output token maximum"@,
    ensures
        mentions_limit(before + name + after),
{
    let text = before + name + after;
    let at = before.len() as int;
    assert(lowered(name).len() == name.len());
    assert(lowered(text).subrange(at, at + name.len()) =~= lowered(name));
    assert(crate::text::occurs_at(lowered(text), lowered(name), at));
}

/// A document tells of the limit by the reason why it stopped, by an error, or by a result
/// that is an error, and in no other way.
pub proof fn law_where_limits_are_told(value: Json)
    ensures
        text_in(member(value, "stop_reason"@)) == Some("max_tokens"@) ==> limit_in(value),
        text_in(member_of(member(value, "message"@), "stop_reason"@)) == Some("max_tokens"@)
            ==> limit_in(value),
        text_in(member(value, "error"@)) matches Some(t) ==> (mentions_limit(t) ==> limit_in(
            value,
        )),
        bool_in(member(value, "is_error"@)) == Some(true) ==> (text_in(
            member(value, "result"@),
        ) matches Some(t) ==> (mentions_limit(t) ==> limit_in(value))),
        items_in(member(value, "errors"@)) matches Some(errors) ==> (forall|i: int|
            0 <= i < errors.len() && limit_text(text_in(Some(#[trigger] errors[i]))) ==> limit_in(
                value,
            )),
        member(value, "stop_reason"@) is None && member(value, "message"@) is None && member(
            value,
            "error"@,
        ) is None && member(value, "errors"@) is None && bool_in(member(value, "is_error"@))
            != Some(true) ==> !limit_in(value),
{
}

/// A structured result gives the signal that its status names, under the current name or the
/// older one, and its summary. A status that is missing or unknown is refused, and a document
/// without a structured result gives none.
pub proof fn law_structured_output_gives_the_signal(value: Json, output: Json, h: HarnessView)
    requires
        member(value, "structured_output"@) == Some(output),
        !(output is Text),
        !(output is Null),
    ensures
        ({
            let r = structured_result(value, h);
            let current = member(output, "opsx_status"@);
            let older = member(output, "ospx_status"@);
            let word = text_in(
                if current is Some {
                    current
                } else {
                    older
                },
            );
            &&& r is Ok <==> word is Some && status_signal(word->0) is Some
            &&& r matches Ok(found) ==> {
                &&& found matches Some(f)
                &&& f.0 == status_signal(word->0)->0
                &&& text_in(member(output, "summary"@)) matches Some(s) ==> f.1 == s
                &&& text_in(member(output, "summary"@)) is None ==> f.1.len() == 0
            }
        }),
{
    reveal_strlit("");
}

/// Without a structured result none is read.
pub proof fn law_no_structured_output_gives_nothing(value: Json, h: HarnessView)
    requires
        member(value, "structured_output"@) is None || member(value, "structured_output"@) == Some(
            Json::Null,
        ),
    ensures
        structured_result(value, h) == Ok::<Option<(StageSignal, Seq<char>)>, Seq<char>>(None),
{
}

/// An output that says that it is an error is refused with its own words. Otherwise its
/// structured result decides, and where there is none the last marker of its text. The
/// conversation is the one that the output names.
pub proof fn law_results_are_read_off_documents(value: Json, stdout: Seq<char>, h: HarnessView)
    ensures
        ({
            let r = result_of(Some(value), stdout, h);
            let error = bool_in(member(value, "is_error"@)) == Some(true);
            let text = if text_in(member(value, "result"@)) is Some {
                text_in(member(value, "result"@))->0
            } else {
                stdout
            };
            &&& error ==> (r matches Err(e) && text.is_suffix_of(e))
            &&& !error && structured_result(value, h) is Err ==> r is Err
            &&& !error ==> (structured_result(value, h) matches Ok(Some(f)) ==> (r matches Ok(v)
                && v.signal == f.0 && v.text == f.1))
            &&& !error ==> (structured_result(value, h) matches Ok(None) ==> {
                &&& r is Ok <==> last_signal(lines_of(text)) is Some
                &&& r matches Ok(v) ==> Some(v.signal) == last_signal(lines_of(text)) && v.text
                    == text
            })
            &&& r matches Ok(v) ==> v.session_id == text_in(member(value, "session_id"@))
        }),
        result_of(None, stdout, h) is Ok <==> last_signal(lines_of(stdout)) is Some,
        result_of(None, stdout, h) matches Ok(v) ==> Some(v.signal) == last_signal(
            lines_of(stdout),
        ) && v.text == stdout && v.session_id is None,
{
    let text = if text_in(member(value, "result"@)) is Some {
        text_in(member(value, "result"@))->0
    } else {
        stdout
    };
    let e = h.title + " reported an error: "@ + text;
    assert(e.subrange(e.len() - text.len(), e.len() as int) =~= text);
}

/// The last event of a stream that reports a result with a signal is the result of the stage.
pub proof fn law_the_last_result_of_a_stream_counts(values: Seq<Json>, last: Json, h: HarnessView)
    requires
        text_in(member(last, "type"@)) == Some("result"@),
    ensures
        structured_result(last, h) matches Ok(Some(f)) ==> (stream_result(
            values.push(last),
            h,
        ) matches Ok(v) && v.signal == f.0 && v.text == f.1 && v.session_id == text_in(
            member(last, "session_id"@),
        )),
        structured_result(last, h) matches Ok(None) ==> (last_signal(
            lines_of(result_text(last)),
        ) matches Some(signal) ==> (stream_result(values.push(last), h) matches Ok(v) && v.signal
            == signal && v.text == result_text(last))),
        structured_result(last, h) is Err ==> stream_result(values.push(last), h) is Err,
{
    let all = values.push(last);
    assert(all.drop_last() =~= values);
    assert(all.last() == last);
    assert(result_event(all[values.len() as int]));
}

/// A stream in which nothing reports a result gives none.
pub proof fn law_streams_need_a_result(values: Seq<Json>, h: HarnessView)
    requires
        forall|i: int|
            0 <= i < values.len() ==> text_in(member(#[trigger] values[i], "type"@)) != Some(
                "result"@,
            ),
    ensures
        stream_result(values, h) is Err,
{
    assert forall|i: int| 0 <= i < values.len() implies !result_event(#[trigger] values[i]) by {
        assert(text_in(member(values[i], "type"@)) != Some("result"@));
    }
}

/// A connection works where its command succeeds and the last result of its output is no
/// error and says something. That, without the white space around it, is the answer.
pub proof fn law_connections_work_by_answering(
    values: Seq<Json>,
    result: Json,
    output: ProcessOutput,
    h: HarnessView,
)
    requires
        member(result, "type"@) is None || text_in(member(result, "type"@)) == Some("result"@),
    ensures
        ({
            let r = test_answer(values.push(result), output, h);
            let said = trimmed(result_text(result));
            let error = bool_in(member(result, "is_error"@)) == Some(true);
            &&& r is Ok <==> output.success && !error && said.len() > 0
            &&& r matches Ok(answer) ==> answer == said
            &&& output.success && error ==> (r matches Err(e) && said.is_suffix_of(e))
        }),
        test_answer(Seq::empty(), output, h) is Err,
        text_in(member(result, "result"@)) matches Some(t) ==> result_text(result) == t,
{
    let all = values.push(result);
    assert(all.last() == result);
    let said = trimmed(result_text(result));
    let e = h.title + " connection test reported an error: "@ + said;
    assert(e.subrange(e.len() - said.len(), e.len() as int) =~= said);
}

/// A harness that does not know an option is asked again without it: first without the
/// schema, then with the next plainer format. A run that succeeded is never repeated, one
/// that stopped at the limit is always continued, and any other failure ends the stage with
/// what was printed.
pub proof fn law_attempts_are_repeated_for_their_options(
    a: Attempt,
    output: ProcessOutput,
    h: HarnessView,
)
    ensures
        ({
            let r = attempt_outcome(a, output, h);
            let limit = limit_reached(
                documents_of(output.stdout@),
                output.success,
                printed(output),
            );
            &&& r is OutputLimit <==> limit
            &&& r is Complete ==> output.success
            &&& !limit && output.success && a.format == ClaudeOutputFormat::StreamJson ==> (match r {
                AttemptView::Complete(v) => stream_result(
                    line_documents(lines_of(output.stdout@)),
                    h,
                ) == Ok::<_, Seq<char>>(v),
                AttemptView::Failed(e) => stream_result(
                    line_documents(lines_of(output.stdout@)),
                    h,
                ) == Err::<ResultView, _>(e),
                _ => false,
            })
            &&& !limit && output.success && a.format != ClaudeOutputFormat::StreamJson ==> (match r {
                AttemptView::Complete(v) => result_of(
                    parsed_json(output.stdout@),
                    output.stdout@,
                    h,
                ) == Ok::<_, Seq<char>>(v),
                AttemptView::Failed(e) => result_of(
                    parsed_json(output.stdout@),
                    output.stdout@,
                    h,
                ) == Err::<ResultView, _>(e),
                _ => false,
            })
            &&& r is Again <==> !limit && !output.success && ((a.use_schema && schema_rejected(
                output,
            )) || (format_rejected(output) && a.format != ClaudeOutputFormat::Text))
            &&& r matches AttemptView::Again(next, _) ==> {
                &&& !next.first
                &&& a.use_schema && schema_rejected(output) ==> !next.use_schema && next.format
                    == a.format
                &&& !(a.use_schema && schema_rejected(output)) ==> {
                    &&& a.format == ClaudeOutputFormat::StreamJson ==> next.format
                        == ClaudeOutputFormat::Json && next.use_schema == a.use_schema
                    &&& a.format == ClaudeOutputFormat::Json ==> next.format
                        == ClaudeOutputFormat::Text && !next.use_schema
                }
            }
            &&& r is Failed && !output.success ==> diagnostic(output).is_suffix_of(r->Failed_0)
        }),
{
    let d = diagnostic(output);
    let e = h.title + " stage failed: "@ + d;
    assert(e.subrange(e.len() - d.len(), e.len() as int) =~= d);
}

/// A session that a person works in is told its permission mode, whatever else was given, and
/// last its prompt. It writes no protocol.
pub proof fn law_interactive_sessions_are_told_their_prompt(
    repo: Seq<char>,
    l: LauncherView,
    permission_mode: Seq<char>,
    extra: Seq<Seq<char>>,
    prompt: Seq<char>,
)
    ensures
        ({
            let c = interactive_command(repo, l, permission_mode, extra, Some(prompt));
            let d = interactive_command(repo, l, permission_mode, extra, None);
            &&& c.program == l.program
            &&& c.cwd == repo
            &&& c.args == d.args.push(prompt)
            &&& (seq!["--permission-mode"@, permission_mode] + extra).is_suffix_of(d.args)
            &&& l.prefix_args.is_prefix_of(c.args)
            &&& c.initial_stdin is None
        }),
{
    let head = leading_args(l) + seq!["--permission-mode"@, permission_mode] + extra;
    let with = CommandView { args: head + seq![prompt], ..bare_command(l.program, repo) };
    let without = CommandView {
        args: head + Seq::<Seq<char>>::empty(),
        ..bare_command(l.program, repo)
    };
    crate::launch::law_commands_get_their_environment(with, l.unset_environment, l.environment);
    crate::launch::law_commands_get_their_environment(without, l.unset_environment, l.environment);
    let c = interactive_command(repo, l, permission_mode, extra, Some(prompt));
    let d = interactive_command(repo, l, permission_mode, extra, None);
    assert(c.args == with.args);
    assert(d.args == without.args);
    assert(c.args =~= d.args.push(prompt));
    let last = seq!["--permission-mode"@, permission_mode] + extra;
    assert(d.args.subrange(d.args.len() - last.len(), d.args.len() as int) =~= last);
    assert(c.args.subrange(0, l.prefix_args.len() as int) =~= l.prefix_args);
}

/// A connection is tried without leaving a conversation behind, and is asked for the marker
/// that its answer is held against. A compaction takes the conversation up and asks for
/// nothing else.
pub proof fn law_tests_leave_no_conversation(
    repo: Seq<char>,
    l: LauncherView,
    permission_mode: Seq<char>,
    id: Seq<char>,
)
    ensures
        ({
            let c = test_command(repo, l, permission_mode);
            &&& c.program == l.program
            &&& c.cwd == repo
            &&& c.args.last() == CONNECTION_TEST_1@ + "OPSX_CONNECTION_OK"@ + "."@
            &&& c.args[c.args.len() - 2] == permission_mode
            &&& c.args.contains("--no-session-persistence"@)
        }),
        ({
            let c = compact_command(repo, l, permission_mode, id, ClaudeOutputFormat::Text);
            &&& c.program == l.program
            &&& c.args.last() == "/compact"@
            &&& c.args.subrange(c.args.len() - 3, c.args.len() - 1) == seq!["--resume"@, id]
            &&& !c.accepts_stream_messages
        }),
{
    let bare = CommandView {
        args: leading_args(l) + seq![
            "--print"@,
            "--output-format"@,
            "json"@,
            "--no-session-persistence"@,
            "--permission-mode"@,
            permission_mode,
            CONNECTION_TEST_1@ + CONNECTION_TEST_MARKER@ + "."@,
        ],
        ..bare_command(l.program, repo)
    };
    crate::launch::law_commands_get_their_environment(bare, l.unset_environment, l.environment);
    let c = test_command(repo, l, permission_mode);
    assert(c.args == bare.args);
    assert(c.args[c.args.len() - 4] == "--no-session-persistence"@);
    law_stages_hand_over_their_prompt(
        repo,
        l,
        permission_mode,
        SessionModeView::Resume { id },
        "/compact"@,
        ClaudeOutputFormat::Text,
        None,
    );
}

/// What the agent said is the texts of its messages, and other events say nothing.
pub proof fn law_only_messages_are_said(event: Json)
    ensures
        text_in(member(event, "type"@)) != Some("assistant"@) ==> assistant_said(event).len() == 0,
        text_in(member(event, "type"@)) == Some("assistant"@) ==> (items_in(
            member_of(member(event, "message"@), "content"@),
        ) matches Some(parts) ==> assistant_said(event) == texts_under(parts, Some("text"@))),
{
}

} // verus!
