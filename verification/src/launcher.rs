//! How an agent is launched, whichever harness carries it.
use crate::backend::{SessionMode, SessionModeView, StageProtocol};
use crate::claude_agent::{
    build_claude_command, connected_launcher, stage_command, ClaudeLauncher, ClaudeOutputFormat,
    LauncherView,
};
use crate::cli::{AgentConnection, BackendKind};
use crate::codex::{codex_launcher, server, CodexLauncher, CodexView};
use crate::failure::{outcome, Failure};
use crate::names::{Harness, HarnessView};
use crate::process::{CommandSpec, CommandView};
use crate::table::named;
use crate::text::{cat2, cat5, cat7, equal, push_text, str_option, text_option, texts};
use vstd::prelude::*;
use vstd::string::*;

verus! {

/// How OpenCode is launched.
#[derive(Debug, Clone)]
pub struct OpenCodeLauncher {
    pub connection_name: Option<String>,
    pub environment_name: Option<String>,
    pub program: String,
    pub prefix_args: Vec<String>,
    pub model: Option<String>,
}

/// An [`OpenCodeLauncher`] by view.
pub struct OpenCodeView {
    pub connection_name: Option<Seq<char>>,
    pub environment_name: Option<Seq<char>>,
    pub program: Seq<char>,
    pub prefix_args: Seq<Seq<char>>,
    pub model: Option<Seq<char>>,
}

impl View for OpenCodeLauncher {
    type V = OpenCodeView;

    open spec fn view(&self) -> OpenCodeView {
        OpenCodeView {
            connection_name: text_option(self.connection_name),
            environment_name: text_option(self.environment_name),
            program: self.program@,
            prefix_args: texts(self.prefix_args@),
            model: text_option(self.model),
        }
    }
}

/// How an agent is launched.
#[derive(Debug, Clone)]
pub enum AgentLauncher {
    Claude(ClaudeLauncher),
    OpenCode(OpenCodeLauncher),
    Codex(CodexLauncher),
}

/// An [`AgentLauncher`] by view.
pub enum AgentView {
    Claude(LauncherView),
    OpenCode(OpenCodeView),
    Codex(CodexView),
}

impl View for AgentLauncher {
    type V = AgentView;

    open spec fn view(&self) -> AgentView {
        match *self {
            AgentLauncher::Claude(l) => AgentView::Claude(l@),
            AgentLauncher::OpenCode(l) => AgentView::OpenCode(l@),
            AgentLauncher::Codex(l) => AgentView::Codex(l@),
        }
    }
}

impl AgentView {
    pub open spec fn program(self) -> Seq<char> {
        match self {
            AgentView::Claude(l) => l.program,
            AgentView::OpenCode(l) => l.program,
            AgentView::Codex(l) => l.program,
        }
    }

    pub open spec fn connection_name(self) -> Option<Seq<char>> {
        match self {
            AgentView::Claude(l) => l.connection_name,
            AgentView::OpenCode(l) => l.connection_name,
            AgentView::Codex(l) => l.connection_name,
        }
    }

    pub open spec fn model(self) -> Option<Seq<char>> {
        match self {
            AgentView::Claude(l) => l.model,
            AgentView::OpenCode(l) => l.model,
            AgentView::Codex(l) => l.model,
        }
    }

    pub open spec fn environment_name(self) -> Option<Seq<char>> {
        match self {
            AgentView::Claude(l) => l.environment_name,
            AgentView::OpenCode(l) => l.environment_name,
            AgentView::Codex(l) => l.environment_name,
        }
    }

    pub open spec fn backend_name(self, h: HarnessView) -> Seq<char> {
        match self {
            AgentView::Claude(_) => h.name,
            AgentView::OpenCode(_) => "opencode"@,
            AgentView::Codex(_) => "codex"@,
        }
    }
}

/// How the agent of a connection is launched, by the harness that the connection names.
pub open spec fn launcher_of(
    connection: AgentConnection,
    surrounding: Seq<(Seq<char>, Seq<char>)>,
    home: Option<Seq<char>>,
    opencode: Result<OpenCodeView, Seq<char>>,
    h: HarnessView,
) -> Result<AgentView, Seq<char>> {
    match connection.backend {
        BackendKind::Claude => match connected_launcher(connection, surrounding, h) {
            Ok(l) => Ok(AgentView::Claude(l)),
            Err(message) => Err(message),
        },
        BackendKind::OpenCode => match opencode {
            Ok(l) => Ok(AgentView::OpenCode(l)),
            Err(message) => Err(message),
        },
        BackendKind::Codex => match codex_launcher(connection, surrounding, home, h) {
            Ok(l) => Ok(AgentView::Codex(l)),
            Err(message) => Err(message),
        },
    }
}

impl AgentLauncher {
    /// Launches the agent of a connection. `opencode` is how OpenCode would be launched.
    pub fn from_connection(
        connection: &AgentConnection,
        surrounding: &Vec<(String, String)>,
        home: Option<&str>,
        opencode: Result<OpenCodeLauncher, Failure>,
        harness: &Harness,
    ) -> (r: Result<AgentLauncher, Failure>)
        ensures
            outcome(r) == launcher_of(
                *connection,
                named(surrounding@),
                str_option(home),
                outcome(opencode),
                harness@,
            ),
    {
        match connection.backend {
            BackendKind::Claude => match ClaudeLauncher::from_connection(
                connection,
                surrounding,
                harness,
            ) {
                Ok(l) => Ok(AgentLauncher::Claude(l)),
                Err(e) => Err(e),
            },
            BackendKind::OpenCode => match opencode {
                Ok(l) => Ok(AgentLauncher::OpenCode(l)),
                Err(e) => Err(e),
            },
            BackendKind::Codex => match CodexLauncher::from_connection(
                connection,
                surrounding,
                home,
                harness,
            ) {
                Ok(l) => Ok(AgentLauncher::Codex(l)),
                Err(e) => Err(e),
            },
        }
    }

    pub fn program(&self) -> (r: &str)
        ensures
            r@ == self@.program(),
    {
        match self {
            AgentLauncher::Claude(l) => l.program.as_str(),
            AgentLauncher::OpenCode(l) => l.program.as_str(),
            AgentLauncher::Codex(l) => l.program.as_str(),
        }
    }

    pub fn connection_name(&self) -> (r: Option<&str>)
        ensures
            str_option(r) == self@.connection_name(),
    {
        let name = match self {
            AgentLauncher::Claude(l) => &l.connection_name,
            AgentLauncher::OpenCode(l) => &l.connection_name,
            AgentLauncher::Codex(l) => &l.connection_name,
        };
        match name {
            Some(s) => Some(s.as_str()),
            None => None,
        }
    }

    pub fn model(&self) -> (r: Option<&str>)
        ensures
            str_option(r) == self@.model(),
    {
        let name = match self {
            AgentLauncher::Claude(l) => &l.model,
            AgentLauncher::OpenCode(l) => &l.model,
            AgentLauncher::Codex(l) => &l.model,
        };
        match name {
            Some(s) => Some(s.as_str()),
            None => None,
        }
    }

    pub fn environment_name(&self) -> (r: Option<&str>)
        ensures
            str_option(r) == self@.environment_name(),
    {
        let name = match self {
            AgentLauncher::Claude(l) => &l.environment_name,
            AgentLauncher::OpenCode(l) => &l.environment_name,
            AgentLauncher::Codex(l) => &l.environment_name,
        };
        match name {
            Some(s) => Some(s.as_str()),
            None => None,
        }
    }

    pub fn backend_name<'a>(&self, harness: &'a Harness) -> (r: &'a str)
        ensures
            r@ == self@.backend_name(harness@),
    {
        match self {
            AgentLauncher::Claude(_) => harness.name.as_str(),
            AgentLauncher::OpenCode(_) => "opencode",
            AgentLauncher::Codex(_) => "codex",
        }
    }
}

pub open spec fn or_else(o: Option<Seq<char>>, otherwise: Seq<char>) -> Seq<char> {
    match o {
        Some(s) => s,
        None => otherwise,
    }
}

/// What a connection is called: its name, its harness, its model and its environment.
pub open spec fn description(l: AgentView, h: HarnessView) -> Seq<char> {
    let head = "`"@ + or_else(l.connection_name(), "default"@) + "` ("@ + l.backend_name(h) + ", "@
        + or_else(l.model(), "harness default model"@);
    match l.environment_name() {
        None => head + ")"@,
        Some(environment) => head + ", environment `"@ + environment + "`)"@,
    }
}

pub fn connection_description(launcher: &AgentLauncher, harness: &Harness) -> (r: String)
    ensures
        r@ == description(launcher@, harness@),
{
    let name = match launcher.connection_name() {
        Some(name) => name,
        None => "default",
    };
    let model = match launcher.model() {
        Some(model) => model,
        None => "harness default model",
    };
    let start = cat5("`", name, "` (", launcher.backend_name(harness), ", ");
    let head = cat2(start.as_str(), model);
    match launcher.environment_name() {
        None => cat2(head.as_str(), ")"),
        Some(environment) => {
            let rest = cat2(environment, "`)");
            let line = cat2(head.as_str(), ", environment `");
            let r = cat2(line.as_str(), rest.as_str());
            assert(r@ =~= description(launcher@, harness@));
            r
        },
    }
}

/// The title of a stage, with who carries it.
pub open spec fn titled(title: Seq<char>, role: Seq<char>, l: AgentView, h: HarnessView) -> Seq<char> {
    title + " · "@ + role + " ("@ + or_else(l.connection_name(), "default"@) + ", "@
        + l.backend_name(h) + ")"@
}

pub fn model_stage_title(
    title: &str,
    role: &str,
    launcher: &AgentLauncher,
    harness: &Harness,
) -> (r: String)
    ensures
        r@ == titled(title@, role@, launcher@, harness@),
{
    let connection = match launcher.connection_name() {
        Some(name) => name,
        None => "default",
    };
    let head = cat7(title, " · ", role, " (", connection, ", ", launcher.backend_name(harness));
    cat2(head.as_str(), ")")
}

/// The programs that have to be there before an agent is launched, in the order in which
/// they are looked for.
pub open spec fn required_programs(l: AgentView, h: HarnessView) -> Seq<Seq<char>> {
    match l {
        AgentView::Claude(_) => if l.program() != h.name {
            seq![l.program(), h.name]
        } else {
            seq![h.name]
        },
        _ => seq![l.program()],
    }
}

pub fn launcher_prerequisites(launcher: &AgentLauncher, harness: &Harness) -> (r: Vec<String>)
    ensures
        texts(r@) == required_programs(launcher@, harness@),
{
    let mut list: Vec<String> = Vec::new();
    match launcher {
        AgentLauncher::Claude(_) => {
            if !equal(launcher.program(), harness.name.as_str()) {
                push_text(&mut list, launcher.program());
            }
            push_text(&mut list, harness.name.as_str());
        },
        _ => {
            push_text(&mut list, launcher.program());
        },
    }
    assert(texts(list@) =~= required_programs(launcher@, harness@));
    list
}

/// The command that a dry run shows for a turn.
pub open spec fn shown_command(
    repo: Seq<char>,
    l: AgentView,
    permission_mode: Seq<char>,
    session: SessionModeView,
    prompt: Seq<char>,
    protocol: StageProtocol,
    opencode: CommandView,
) -> CommandView {
    match l {
        AgentView::Claude(l) => stage_command(
            repo,
            l,
            permission_mode,
            session,
            prompt,
            ClaudeOutputFormat::Json,
            Some(protocol.schema()),
        ),
        AgentView::OpenCode(_) => opencode,
        AgentView::Codex(l) => server(l, repo),
    }
}

/// Builds the command that a dry run shows for a turn. `opencode` is the one that OpenCode
/// would be run with.
pub fn build_agent_dry_run_command(
    repo: &str,
    launcher: &AgentLauncher,
    permission_mode: &str,
    session: &SessionMode,
    prompt: &str,
    protocol: StageProtocol,
    opencode: CommandSpec,
) -> (r: CommandSpec)
    ensures
        r@ == shown_command(
            repo@,
            launcher@,
            permission_mode@,
            session@,
            prompt@,
            protocol,
            opencode@,
        ),
{
    match launcher {
        AgentLauncher::Claude(l) => build_claude_command(
            repo,
            l,
            permission_mode,
            session,
            prompt,
            ClaudeOutputFormat::Json,
            Some(protocol.json_schema()),
        ),
        AgentLauncher::OpenCode(_) => opencode,
        AgentLauncher::Codex(l) => l.server_command(repo),
    }
}

/// A connection is described by its name, the harness that it reaches, its model and its
/// environment, each where it has one.
pub proof fn law_connections_are_described(l: AgentView, h: HarnessView)
    ensures
        l.connection_name() matches Some(name) ==> ("`"@ + name + "` ("@).is_prefix_of(
            description(l, h),
        ),
        l.connection_name() is None ==> ("`"@ + "default"@ + "` ("@).is_prefix_of(description(l, h)),
        l.environment_name() matches Some(e) ==> (", environment `"@ + e + "`)"@).is_suffix_of(
            description(l, h),
        ),
        l.environment_name() is None ==> (l.model() matches Some(m) ==> (l.backend_name(h) + ", "@
            + m + ")"@).is_suffix_of(description(l, h))),
        l matches AgentView::Claude(_) ==> l.backend_name(h) == h.name,
        l matches AgentView::OpenCode(_) ==> l.backend_name(h) == "opencode"@,
        l matches AgentView::Codex(_) ==> l.backend_name(h) == "codex"@,
{
    let d = description(l, h);
    let a = "`"@ + or_else(l.connection_name(), "default"@) + "` ("@;
    assert(d.subrange(0, a.len() as int) =~= a);
    if l.environment_name() is Some {
        let z = ", environment `"@ + l.environment_name()->0 + "`)"@;
        assert(d.subrange(d.len() - z.len(), d.len() as int) =~= z);
    } else if l.model() is Some {
        let z = l.backend_name(h) + ", "@ + l.model()->0 + ")"@;
        assert(d.subrange(d.len() - z.len(), d.len() as int) =~= z);
    }
}

/// The agent of a connection is launched by the harness that the connection names, and by no
/// other.
pub proof fn law_connections_are_launched_by_their_harness(
    c: AgentConnection,
    surrounding: Seq<(Seq<char>, Seq<char>)>,
    home: Option<Seq<char>>,
    opencode: Result<OpenCodeView, Seq<char>>,
    h: HarnessView,
)
    ensures
        launcher_of(c, surrounding, home, opencode, h) matches Ok(l) ==> {
            &&& l is Claude <==> c.backend == BackendKind::Claude
            &&& l is OpenCode <==> c.backend == BackendKind::OpenCode
            &&& l is Codex <==> c.backend == BackendKind::Codex
        },
        c.backend == BackendKind::OpenCode ==> (launcher_of(
            c,
            surrounding,
            home,
            opencode,
            h,
        ) is Ok <==> opencode is Ok),
        c.backend == BackendKind::Codex ==> (launcher_of(c, surrounding, home, opencode, h) is Ok
            <==> codex_launcher(c, surrounding, home, h) is Ok),
        c.backend == BackendKind::Claude ==> (launcher_of(c, surrounding, home, opencode, h) is Ok
            <==> connected_launcher(c, surrounding, h) is Ok),
{
}

/// A stage is titled with its own title first, then who carries it.
pub proof fn law_stages_are_titled(title: Seq<char>, role: Seq<char>, l: AgentView, h: HarnessView)
    ensures
        (title + " · "@ + role).is_prefix_of(titled(title, role, l, h)),
        (l.backend_name(h) + ")"@).is_suffix_of(titled(title, role, l, h)),
        required_programs(l, h)[0] == l.program(),
        !(l is Claude) ==> required_programs(l, h).len() == 1,
        l is Claude ==> required_programs(l, h).last() == h.name,
{
    let t = titled(title, role, l, h);
    let a = title + " · "@ + role;
    assert(t.subrange(0, a.len() as int) =~= a);
    let z = l.backend_name(h) + ")"@;
    assert(t.subrange(t.len() - z.len(), t.len() as int) =~= z);
}

/// A dry run shows the command of the harness that would carry the turn out: with the prompt
/// and the schema of its result where they are handed over on the command line.
pub proof fn law_dry_runs_show_the_command(
    repo: Seq<char>,
    l: AgentView,
    permission_mode: Seq<char>,
    session: SessionModeView,
    prompt: Seq<char>,
    protocol: StageProtocol,
    opencode: CommandView,
)
    ensures
        ({
            let c = shown_command(repo, l, permission_mode, session, prompt, protocol, opencode);
            &&& l is OpenCode ==> c == opencode
            &&& !(l is OpenCode) ==> c.program == l.program() && c.cwd == repo
            &&& l is Claude ==> c.args.last() == prompt && c.args.contains(protocol.schema())
        }),
{
    match l {
        AgentView::Claude(k) => {
            crate::claude_agent::law_stages_hand_over_their_prompt(
                repo,
                k,
                permission_mode,
                session,
                prompt,
                ClaudeOutputFormat::Json,
                Some(protocol.schema()),
            );
            let c = shown_command(repo, l, permission_mode, session, prompt, protocol, opencode);
            let at = c.args.len() - 1 - crate::claude_agent::session_args(session).len() - 3;
            assert(c.args[at] == protocol.schema());
        },
        AgentView::Codex(k) => {
            crate::codex::law_servers_keep_to_their_state(k, repo);
        },
        AgentView::OpenCode(_) => {},
    }
}

} // verus!
