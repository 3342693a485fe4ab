//! The settings of a run: what the command line asks for, what the configuration file
//! supplies, and how the two are put together.
use crate::failure::{fail, fail_with, failed, outcome, Failure};
use crate::names::{Harness, HarnessView};
use crate::numeral::{parse_unsigned, unsigned_value};
use crate::path::{join_path, joined_path};
use crate::stream::StreamFilter;
use crate::table::{entry_names, find_entry, lookup, named, names_of, put, put_entry};
use crate::text::{
    alpha, before_suffix, cat3, chars_of, copy_all, copy_option, cut_at, debug_literal, debug_text,
    digit, ends, ends_with, equal, holds, is_alpha, is_digit, join, joined, lowered, push_text,
    replace, replaced, split_once, str_option, strip_suffix, text_option, texts, to_lower, trim,
    trimmed,
};
use vstd::prelude::*;
use vstd::string::*;

verus! {

pub const DEFAULT_MAX_VERIFY_RETRIES: u32 = 3;

pub const DEFAULT_MAX_OUTPUT_RETRIES: u32 = 3;

pub const DEFAULT_MAX_PROVIDER_RETRIES: u32 = 3;

pub const DEFAULT_LOCAL_WORKER_TIMEOUT_MINUTES: u32 = 60;

pub const DEFAULT_PERMISSION_MODE: &'static str = "auto";

pub const DEFAULT_REWIND_TARGET: &'static str = "post-bootstrap";

/// Which agent harness carries a connection.
#[derive(Debug, Clone, Copy, PartialEq, Eq, Structural)]
pub enum BackendKind {
    Claude,
    OpenCode,
    Codex,
}

impl BackendKind {
    /// The command that starts the harness, and its name in a connection.
    pub open spec fn command(self, h: HarnessView) -> Seq<char> {
        match self {
            BackendKind::Claude => h.name,
            BackendKind::OpenCode => "opencode"@,
            BackendKind::Codex => "codex"@,
        }
    }

    pub fn default_command<'a>(self, harness: &'a Harness) -> (r: &'a str)
        ensures
            r@ == self.command(harness@),
    {
        match self {
            BackendKind::Claude => harness.name.as_str(),
            BackendKind::OpenCode => "opencode",
            BackendKind::Codex => "codex",
        }
    }
}

/// The name of a variable of the surrounding environment.
#[derive(Debug, Clone, PartialEq, Eq)]
pub struct EnvironmentReference {
    pub from_env: String,
}

/// What a connection sets a variable to.
#[derive(Debug, Clone, PartialEq, Eq)]
pub enum ConnectionEnvironmentValue {
    Literal(String),
    FromEnvironment(EnvironmentReference),
}

pub enum EnvironmentValueView {
    Literal(Seq<char>),
    FromEnvironment(Seq<char>),
}

impl View for ConnectionEnvironmentValue {
    type V = EnvironmentValueView;

    open spec fn view(&self) -> EnvironmentValueView {
        match self {
            ConnectionEnvironmentValue::Literal(value) => EnvironmentValueView::Literal(value@),
            ConnectionEnvironmentValue::FromEnvironment(reference) => {
                EnvironmentValueView::FromEnvironment(reference.from_env@)
            },
        }
    }
}

impl ConnectionEnvironmentValue {
    pub fn copy(&self) -> (r: ConnectionEnvironmentValue)
        ensures
            r@ == self@,
    {
        match self {
            ConnectionEnvironmentValue::Literal(value) => ConnectionEnvironmentValue::Literal(
                value.clone(),
            ),
            ConnectionEnvironmentValue::FromEnvironment(reference) => {
                ConnectionEnvironmentValue::FromEnvironment(
                    EnvironmentReference { from_env: reference.from_env.clone() },
                )
            },
        }
    }
}

/// How an agent is reached: the harness, its command and model, its limits, and the
/// environment that it runs in.
#[derive(Debug, Clone, PartialEq, Eq)]
pub struct AgentConnection {
    pub name: Option<String>,
    pub backend: BackendKind,
    pub environment_name: Option<String>,
    pub command: String,
    pub model: Option<String>,
    pub permission_profile: Option<String>,
    pub structured_output: bool,
    pub context_window: Option<u64>,
    pub auto_compact_window: Option<u64>,
    pub auto_compact_percent: Option<u8>,
    pub max_output_tokens: Option<u64>,
    pub env: Vec<(String, ConnectionEnvironmentValue)>,
    pub isolate: bool,
    pub unset_env: Vec<String>,
}

pub struct AgentConnectionView {
    pub name: Option<Seq<char>>,
    pub backend: BackendKind,
    pub environment_name: Option<Seq<char>>,
    pub command: Seq<char>,
    pub model: Option<Seq<char>>,
    pub permission_profile: Option<Seq<char>>,
    pub structured_output: bool,
    pub context_window: Option<u64>,
    pub auto_compact_window: Option<u64>,
    pub auto_compact_percent: Option<u8>,
    pub max_output_tokens: Option<u64>,
    pub env: Seq<(Seq<char>, EnvironmentValueView)>,
    pub isolate: bool,
    pub unset_env: Seq<Seq<char>>,
}

impl View for AgentConnection {
    type V = AgentConnectionView;

    open spec fn view(&self) -> AgentConnectionView {
        AgentConnectionView {
            name: text_option(self.name),
            backend: self.backend,
            environment_name: text_option(self.environment_name),
            command: self.command@,
            model: text_option(self.model),
            permission_profile: text_option(self.permission_profile),
            structured_output: self.structured_output,
            context_window: self.context_window,
            auto_compact_window: self.auto_compact_window,
            auto_compact_percent: self.auto_compact_percent,
            max_output_tokens: self.max_output_tokens,
            env: named(self.env@),
            isolate: self.isolate,
            unset_env: texts(self.unset_env@),
        }
    }
}

/// An environment profile of the configuration file.
#[derive(Debug, Clone)]
pub struct FileEnvironment {
    pub env: Vec<(String, ConnectionEnvironmentValue)>,
    pub isolate: Option<bool>,
    pub unset_env: Vec<String>,
}

pub struct FileEnvironmentView {
    pub env: Seq<(Seq<char>, EnvironmentValueView)>,
    pub isolate: Option<bool>,
    pub unset_env: Seq<Seq<char>>,
}

impl View for FileEnvironment {
    type V = FileEnvironmentView;

    open spec fn view(&self) -> FileEnvironmentView {
        FileEnvironmentView {
            env: named(self.env@),
            isolate: self.isolate,
            unset_env: texts(self.unset_env@),
        }
    }
}

/// The environment profile that sets nothing.
pub open spec fn bare_environment() -> FileEnvironmentView {
    FileEnvironmentView { env: Seq::empty(), isolate: None, unset_env: Seq::empty() }
}

impl Default for FileEnvironment {
    fn default() -> (r: FileEnvironment)
        ensures
            r@ == bare_environment(),
    {
        let r = FileEnvironment { env: Vec::new(), isolate: None, unset_env: Vec::new() };
        assert(r@.env =~= Seq::empty());
        assert(r@.unset_env =~= Seq::empty());
        r
    }
}

/// A connection profile of the configuration file.
#[derive(Debug, Clone)]
pub struct FileConnection {
    pub backend: BackendKind,
    pub command: Option<String>,
    pub model: Option<String>,
    pub permission_profile: Option<String>,
    pub environment: Option<String>,
    pub context_window: Option<u64>,
    pub auto_compact_window: Option<u64>,
    pub auto_compact_percent: Option<u8>,
    pub max_output_tokens: Option<u64>,
    pub env: Vec<(String, ConnectionEnvironmentValue)>,
    pub isolate: Option<bool>,
    pub unset_env: Vec<String>,
}

pub struct FileConnectionView {
    pub backend: BackendKind,
    pub command: Option<Seq<char>>,
    pub model: Option<Seq<char>>,
    pub permission_profile: Option<Seq<char>>,
    pub environment: Option<Seq<char>>,
    pub context_window: Option<u64>,
    pub auto_compact_window: Option<u64>,
    pub auto_compact_percent: Option<u8>,
    pub max_output_tokens: Option<u64>,
    pub env: Seq<(Seq<char>, EnvironmentValueView)>,
    pub isolate: Option<bool>,
    pub unset_env: Seq<Seq<char>>,
}

impl View for FileConnection {
    type V = FileConnectionView;

    open spec fn view(&self) -> FileConnectionView {
        FileConnectionView {
            backend: self.backend,
            command: text_option(self.command),
            model: text_option(self.model),
            permission_profile: text_option(self.permission_profile),
            environment: text_option(self.environment),
            context_window: self.context_window,
            auto_compact_window: self.auto_compact_window,
            auto_compact_percent: self.auto_compact_percent,
            max_output_tokens: self.max_output_tokens,
            env: named(self.env@),
            isolate: self.isolate,
            unset_env: texts(self.unset_env@),
        }
    }
}

/// The connection profile that sets nothing.
pub open spec fn bare_connection() -> FileConnectionView {
    FileConnectionView {
        backend: BackendKind::Claude,
        command: None,
        model: None,
        permission_profile: None,
        environment: None,
        context_window: None,
        auto_compact_window: None,
        auto_compact_percent: None,
        max_output_tokens: None,
        env: Seq::empty(),
        isolate: None,
        unset_env: Seq::empty(),
    }
}

impl Default for FileConnection {
    fn default() -> (r: FileConnection)
        ensures
            r@ == bare_connection(),
    {
        let r = FileConnection {
            backend: BackendKind::Claude,
            command: None,
            model: None,
            permission_profile: None,
            environment: None,
            context_window: None,
            auto_compact_window: None,
            auto_compact_percent: None,
            max_output_tokens: None,
            env: Vec::new(),
            isolate: None,
            unset_env: Vec::new(),
        };
        assert(r@.env =~= Seq::empty());
        assert(r@.unset_env =~= Seq::empty());
        r
    }
}

/// The configuration file. Its profiles stand in the order of their names.
#[derive(Debug, Clone)]
pub struct FileConfig {
    pub max_verify_retries: Option<u32>,
    pub max_output_retries: Option<u32>,
    pub max_provider_retries: Option<u32>,
    pub local_worker_timeout_minutes: Option<u32>,
    pub sidecar: Option<bool>,
    pub sidecar_root: Option<String>,
    pub local_only: Option<bool>,
    pub yolo: Option<bool>,
    pub loop_workflow: Option<bool>,
    pub max_iterations: Option<u32>,
    pub permission_mode: Option<String>,
    pub claude_command: Option<String>,
    pub claude_model: Option<String>,
    pub frontier_command: Option<String>,
    pub frontier_model: Option<String>,
    pub worker_connection: Option<String>,
    pub frontier_connection: Option<String>,
    pub connections: Vec<(String, FileConnection)>,
    pub environments: Vec<(String, FileEnvironment)>,
    pub auto_compact_window: Option<u64>,
    pub auto_compact_percent: Option<u8>,
    pub max_output_tokens: Option<u64>,
    pub explore_command: Option<String>,
    pub propose_command: Option<String>,
    pub apply_command: Option<String>,
    pub verify_command: Option<String>,
    pub archive_command: Option<String>,
    pub stream_claude: Option<StreamFilter>,
}

impl Default for FileConfig {
    fn default() -> (r: FileConfig)
        ensures
            r.max_verify_retries is None,
            r.max_output_retries is None,
            r.max_provider_retries is None,
            r.local_worker_timeout_minutes is None,
            r.sidecar is None,
            r.sidecar_root is None,
            r.local_only is None,
            r.yolo is None,
            r.loop_workflow is None,
            r.max_iterations is None,
            r.permission_mode is None,
            r.claude_command is None,
            r.claude_model is None,
            r.frontier_command is None,
            r.frontier_model is None,
            r.worker_connection is None,
            r.frontier_connection is None,
            r.connections@.len() == 0,
            r.environments@.len() == 0,
            r.auto_compact_window is None,
            r.auto_compact_percent is None,
            r.max_output_tokens is None,
            r.explore_command is None,
            r.propose_command is None,
            r.apply_command is None,
            r.verify_command is None,
            r.archive_command is None,
            r.stream_claude is None,
    {
        FileConfig {
            max_verify_retries: None,
            max_output_retries: None,
            max_provider_retries: None,
            local_worker_timeout_minutes: None,
            sidecar: None,
            sidecar_root: None,
            local_only: None,
            yolo: None,
            loop_workflow: None,
            max_iterations: None,
            permission_mode: None,
            claude_command: None,
            claude_model: None,
            frontier_command: None,
            frontier_model: None,
            worker_connection: None,
            frontier_connection: None,
            connections: Vec::new(),
            environments: Vec::new(),
            auto_compact_window: None,
            auto_compact_percent: None,
            max_output_tokens: None,
            explore_command: None,
            propose_command: None,
            apply_command: None,
            verify_command: None,
            archive_command: None,
            stream_claude: None,
        }
    }
}

/// The command line.
#[derive(Debug, Clone)]
pub struct CliArgs {
    /// Change request, `advance`, `bootstrap`, `execute`, or `rewind`.
    pub request: Option<String>,
    /// Git revision that `rewind` goes back to.
    pub rewind_target: Option<String>,
    pub yes: bool,
    /// Markdown project context.
    pub context: Option<String>,
    /// `NAME=VALUE` definitions for the bootstrap context.
    pub define: Vec<String>,
    pub repo: String,
    pub sidecar: bool,
    pub sidecar_root: Option<String>,
    pub local_only: bool,
    pub yolo: bool,
    pub no_yolo: bool,
    pub interactive: bool,
    pub test_connection: Option<String>,
    pub basic_connection_test: bool,
    pub update_skills: bool,
    pub resume: bool,
    pub forget: bool,
    pub continue_existing: bool,
    pub loop_workflow: bool,
    pub no_loop: bool,
    pub max_iterations: Option<u32>,
    pub change: Option<String>,
    pub direction: Option<String>,
    pub interactive_args: Vec<String>,
    pub config: Option<String>,
    pub no_config: bool,
    pub max_verify_retries: Option<u32>,
    pub max_output_retries: Option<u32>,
    pub max_provider_retries: Option<u32>,
    pub local_worker_timeout_minutes: Option<u32>,
    pub verbose: bool,
    pub debug: bool,
    pub stream_claude: Option<StreamFilter>,
    pub dry_run: bool,
    pub permission_mode: Option<String>,
    pub claude_command: Option<String>,
    pub claude_model: Option<String>,
    pub worker_connection: Option<String>,
    pub frontier_command: Option<String>,
    pub frontier_model: Option<String>,
    pub frontier_connection: Option<String>,
    pub auto_compact_window: Option<u64>,
    pub auto_compact_percent: Option<u8>,
    pub max_output_tokens: Option<u64>,
    pub explore_command: Option<String>,
    pub propose_command: Option<String>,
    pub apply_command: Option<String>,
    pub verify_command: Option<String>,
    pub archive_command: Option<String>,
}

impl Default for CliArgs {
    /// The command line without arguments, run in the current directory.
    fn default() -> (r: CliArgs)
        ensures
            r.request is None,
            r.rewind_target is None,
            !r.yes,
            r.context is None,
            r.define@.len() == 0,
            r.repo@ == "."@,
            !r.sidecar,
            r.sidecar_root is None,
            !r.local_only,
            !r.yolo,
            !r.no_yolo,
            !r.interactive,
            r.test_connection is None,
            !r.basic_connection_test,
            !r.update_skills,
            !r.resume,
            !r.forget,
            !r.continue_existing,
            !r.loop_workflow,
            !r.no_loop,
            r.max_iterations is None,
            r.change is None,
            r.direction is None,
            r.interactive_args@.len() == 0,
            r.config is None,
            !r.no_config,
            r.max_verify_retries is None,
            r.max_output_retries is None,
            r.max_provider_retries is None,
            r.local_worker_timeout_minutes is None,
            !r.verbose,
            !r.debug,
            r.stream_claude is None,
            !r.dry_run,
            r.permission_mode is None,
            r.claude_command is None,
            r.claude_model is None,
            r.worker_connection is None,
            r.frontier_command is None,
            r.frontier_model is None,
            r.frontier_connection is None,
            r.auto_compact_window is None,
            r.auto_compact_percent is None,
            r.max_output_tokens is None,
            r.explore_command is None,
            r.propose_command is None,
            r.apply_command is None,
            r.verify_command is None,
            r.archive_command is None,
    {
        CliArgs {
            request: None,
            rewind_target: None,
            yes: false,
            context: None,
            define: Vec::new(),
            repo: ".".to_owned(),
            sidecar: false,
            sidecar_root: None,
            local_only: false,
            yolo: false,
            no_yolo: false,
            interactive: false,
            test_connection: None,
            basic_connection_test: false,
            update_skills: false,
            resume: false,
            forget: false,
            continue_existing: false,
            loop_workflow: false,
            no_loop: false,
            max_iterations: None,
            change: None,
            direction: None,
            interactive_args: Vec::new(),
            config: None,
            no_config: false,
            max_verify_retries: None,
            max_output_retries: None,
            max_provider_retries: None,
            local_worker_timeout_minutes: None,
            verbose: false,
            debug: false,
            stream_claude: None,
            dry_run: false,
            permission_mode: None,
            claude_command: None,
            claude_model: None,
            worker_connection: None,
            frontier_command: None,
            frontier_model: None,
            frontier_connection: None,
            auto_compact_window: None,
            auto_compact_percent: None,
            max_output_tokens: None,
            explore_command: None,
            propose_command: None,
            apply_command: None,
            verify_command: None,
            archive_command: None,
        }
    }
}

/// The settings of a run.
#[derive(Debug, Clone)]
pub struct Cli {
    pub request: String,
    pub execute: bool,
    pub rewind_target: Option<String>,
    pub yes: bool,
    pub bootstrap_context: Option<String>,
    pub bootstrap_defines: Vec<(String, String)>,
    pub repo: String,
    pub sidecar: bool,
    pub sidecar_root: Option<String>,
    pub local_only: bool,
    pub yolo: bool,
    pub interactive: bool,
    pub test_connection: Option<String>,
    pub basic_connection_test: bool,
    pub update_skills: bool,
    pub resume: bool,
    pub forget: bool,
    pub continue_existing: bool,
    pub loop_workflow: bool,
    pub no_loop: bool,
    pub max_iterations: Option<u32>,
    pub change: Option<String>,
    pub direction: Option<String>,
    pub interactive_args: Vec<String>,
    pub max_verify_retries: u32,
    pub max_output_retries: u32,
    pub max_provider_retries: u32,
    pub local_worker_timeout_minutes: u32,
    pub verbose: bool,
    pub debug: bool,
    pub stream_claude: Option<StreamFilter>,
    pub dry_run: bool,
    pub permission_mode: String,
    pub worker_connection: AgentConnection,
    pub frontier_connection: AgentConnection,
    pub explore_command: Option<String>,
    pub propose_command: Option<String>,
    pub apply_command: Option<String>,
    pub verify_command: Option<String>,
    pub archive_command: Option<String>,
    pub config_path: Option<String>,
}

pub struct CliView {
    pub request: Seq<char>,
    pub execute: bool,
    pub rewind_target: Option<Seq<char>>,
    pub yes: bool,
    pub bootstrap_context: Option<Seq<char>>,
    pub bootstrap_defines: Seq<(Seq<char>, Seq<char>)>,
    pub repo: Seq<char>,
    pub sidecar: bool,
    pub sidecar_root: Option<Seq<char>>,
    pub local_only: bool,
    pub yolo: bool,
    pub interactive: bool,
    pub test_connection: Option<Seq<char>>,
    pub basic_connection_test: bool,
    pub update_skills: bool,
    pub resume: bool,
    pub forget: bool,
    pub continue_existing: bool,
    pub loop_workflow: bool,
    pub no_loop: bool,
    pub max_iterations: Option<u32>,
    pub change: Option<Seq<char>>,
    pub direction: Option<Seq<char>>,
    pub interactive_args: Seq<Seq<char>>,
    pub max_verify_retries: u32,
    pub max_output_retries: u32,
    pub max_provider_retries: u32,
    pub local_worker_timeout_minutes: u32,
    pub verbose: bool,
    pub debug: bool,
    pub stream_claude: Option<StreamFilter>,
    pub dry_run: bool,
    pub permission_mode: Seq<char>,
    pub worker_connection: AgentConnectionView,
    pub frontier_connection: AgentConnectionView,
    pub explore_command: Option<Seq<char>>,
    pub propose_command: Option<Seq<char>>,
    pub apply_command: Option<Seq<char>>,
    pub verify_command: Option<Seq<char>>,
    pub archive_command: Option<Seq<char>>,
    pub config_path: Option<Seq<char>>,
}

impl View for Cli {
    type V = CliView;

    open spec fn view(&self) -> CliView {
        CliView {
            request: self.request@,
            execute: self.execute,
            rewind_target: text_option(self.rewind_target),
            yes: self.yes,
            bootstrap_context: text_option(self.bootstrap_context),
            bootstrap_defines: named(self.bootstrap_defines@),
            repo: self.repo@,
            sidecar: self.sidecar,
            sidecar_root: text_option(self.sidecar_root),
            local_only: self.local_only,
            yolo: self.yolo,
            interactive: self.interactive,
            test_connection: text_option(self.test_connection),
            basic_connection_test: self.basic_connection_test,
            update_skills: self.update_skills,
            resume: self.resume,
            forget: self.forget,
            continue_existing: self.continue_existing,
            loop_workflow: self.loop_workflow,
            no_loop: self.no_loop,
            max_iterations: self.max_iterations,
            change: text_option(self.change),
            direction: text_option(self.direction),
            interactive_args: texts(self.interactive_args@),
            max_verify_retries: self.max_verify_retries,
            max_output_retries: self.max_output_retries,
            max_provider_retries: self.max_provider_retries,
            local_worker_timeout_minutes: self.local_worker_timeout_minutes,
            verbose: self.verbose,
            debug: self.debug,
            stream_claude: self.stream_claude,
            dry_run: self.dry_run,
            permission_mode: self.permission_mode@,
            worker_connection: self.worker_connection@,
            frontier_connection: self.frontier_connection@,
            explore_command: text_option(self.explore_command),
            propose_command: text_option(self.propose_command),
            apply_command: text_option(self.apply_command),
            verify_command: text_option(self.verify_command),
            archive_command: text_option(self.archive_command),
            config_path: text_option(self.config_path),
        }
    }
}

/// The first of two settings that is there.
pub open spec fn first<T>(a: Option<T>, b: Option<T>) -> Option<T> {
    if a is Some {
        a
    } else {
        b
    }
}

/// The setting, or its default.
pub open spec fn or_default<T>(a: Option<T>, default: T) -> T {
    match a {
        Some(value) => value,
        None => default,
    }
}

fn first_of<T: Copy>(a: Option<T>, b: Option<T>) -> (r: Option<T>)
    ensures
        r == first(a, b),
{
    if a.is_some() {
        a
    } else {
        b
    }
}

fn first_text(a: &Option<String>, b: &Option<String>) -> (r: Option<String>)
    ensures
        text_option(r) == first(text_option(*a), text_option(*b)),
{
    if a.is_some() {
        copy_option(a)
    } else {
        copy_option(b)
    }
}

fn value_or(a: Option<u32>, default: u32) -> (r: u32)
    ensures
        r == or_default(a, default),
{
    match a {
        Some(value) => value,
        None => default,
    }
}

fn text_or(a: Option<String>, default: &str) -> (r: String)
    ensures
        r@ == or_default(text_option(a), default@),
{
    match a {
        Some(value) => value,
        None => default.to_owned(),
    }
}

fn flag(a: Option<bool>) -> (r: bool)
    ensures
        r == (a == Some(true)),
{
    match a {
        Some(value) => value,
        None => false,
    }
}

/// Whether a text is a name of a template variable: letters, digits and underscores, no
/// digit first.
pub open spec fn template_name(name: Seq<char>) -> bool {
    &&& name.len() > 0
    &&& !digit(name[0])
    &&& forall|i: int|
        0 <= i < name.len() ==> (#[trigger] name[i] == '_' || alpha(name[i]) || digit(name[i]))
}

/// Whether a text names a template variable.
pub fn valid_template_name(name: &str) -> (r: bool)
    ensures
        r == template_name(name@),
{
    let v = chars_of(name);
    if v.len() == 0 || is_digit(v[0]) {
        return false;
    }
    let mut i: usize = 0;
    while i < v.len()
        invariant
            v@ == name@,
            i <= v@.len(),
            forall|k: int|
                0 <= k < i ==> (#[trigger] name@[k] == '_' || alpha(name@[k]) || digit(name@[k])),
        decreases v@.len() - i,
    {
        let c = v[i];
        if !(c == '_' || is_alpha(c) || is_digit(c)) {
            assert(!(name@[i as int] == '_' || alpha(name@[i as int]) || digit(name@[i as int])));
            return false;
        }
        i += 1;
    }
    true
}

pub const BAD_DEFINE_NAME: &'static str =
    "`; use letters, digits, and underscores, beginning with a letter or underscore";

/// The variables that `NAME=VALUE` definitions give, or why the first bad one is refused.
pub open spec fn defined(values: Seq<Seq<char>>) -> Result<
    Seq<(Seq<char>, Seq<char>)>,
    Seq<char>,
>
    decreases values.len(),
{
    if values.len() == 0 {
        Ok(Seq::empty())
    } else {
        match defined(values.drop_last()) {
            Err(message) => Err(message),
            Ok(table) => match cut_at(values.last(), '=') {
                None => Err(
                    "invalid --define "@ + debug_literal(values.last())
                        + "; expected NAME=VALUE"@,
                ),
                Some(pair) => if !template_name(pair.0) {
                    Err("invalid bootstrap variable name `"@ + pair.0 + BAD_DEFINE_NAME@)
                } else if lookup(table, pair.0) is Some {
                    Err("bootstrap variable `"@ + pair.0 + "` was defined more than once"@)
                } else {
                    Ok(put(table, pair.0, pair.1))
                },
            },
        }
    }
}

/// A definition that is refused decides, whatever follows it.
proof fn lemma_refused_define(values: Seq<Seq<char>>, n: int)
    requires
        0 <= n <= values.len(),
        defined(values.take(n)) is Err,
    ensures
        defined(values) == defined(values.take(n)),
    decreases values.len(),
{
    if n < values.len() {
        assert(values.drop_last().take(n) =~= values.take(n));
        lemma_refused_define(values.drop_last(), n);
    } else {
        assert(values.take(n) =~= values);
    }
}

/// Reads the definitions of the bootstrap context.
pub fn parse_bootstrap_defines(values: &Vec<String>) -> (r: Result<
    Vec<(String, String)>,
    Failure,
>)
    ensures
        match r {
            Ok(table) => defined(texts(values@)) == Ok::<_, Seq<char>>(named(table@)),
            Err(e) => defined(texts(values@)) == Err::<Seq<(Seq<char>, Seq<char>)>, _>(e.message@),
        },
{
    let mut table: Vec<(String, String)> = Vec::new();
    let ghost all = texts(values@);
    let mut i: usize = 0;
    assert(all.take(0) =~= Seq::empty());
    assert(named(table@) =~= Seq::empty());
    while i < values.len()
        invariant
            i <= values@.len(),
            all == texts(values@),
            defined(all.take(i as int)) == Ok::<_, Seq<char>>(named(table@)),
        decreases values@.len() - i,
    {
        let ghost upto = all.take(i + 1);
        proof {
            assert(upto.drop_last() =~= all.take(i as int));
            assert(upto.last() == values@[i as int]@);
            if defined(upto) is Err {
                lemma_refused_define(all, i + 1);
            }
        }
        let definition = values[i].as_str();
        match split_once(definition, '=') {
            None => {
                let shown = debug_text(definition);
                return fail(cat3("invalid --define ", shown.as_str(), "; expected NAME=VALUE"));
            },
            Some(pair) => {
                let (name, value) = pair;
                if !valid_template_name(name.as_str()) {
                    return fail(
                        cat3("invalid bootstrap variable name `", name.as_str(), BAD_DEFINE_NAME),
                    );
                }
                if find_entry(&table, name.as_str()).is_some() {
                    return fail(
                        cat3("bootstrap variable `", name.as_str(), "` was defined more than once"),
                    );
                }
                put_entry(&mut table, name, value);
            },
        }
        i += 1;
    }
    assert(all.take(i as int) =~= all);
    Ok(table)
}

/// What is said of the names that there are to choose from.
pub open spec fn available(what: Seq<char>, names: Seq<Seq<char>>) -> Seq<char> {
    if names.len() == 0 {
        "none are configured"@
    } else {
        "available "@ + what + ": "@ + joined(names, ", "@)
    }
}

fn available_text(what: &str, names: &Vec<String>) -> (r: String)
    ensures
        r@ == available(what@, texts(names@)),
{
    if names.len() == 0 {
        "none are configured".to_owned()
    } else {
        let list = join(names, ", ");
        crate::text::cat4("available ", what, ": ", list.as_str())
    }
}

/// The connection profile that is asked for, if one is.
pub open spec fn selected(
    name: Option<Seq<char>>,
    connections: Seq<(Seq<char>, FileConnectionView)>,
) -> Result<Option<(Seq<char>, FileConnectionView)>, Seq<char>> {
    match name {
        None => Ok(None),
        Some(name) => {
            let name = trimmed(name);
            if name.len() == 0 {
                Err("connection profile name cannot be empty"@)
            } else {
                match lookup(connections, name) {
                    Some(profile) => Ok(Some((name, profile))),
                    None => Err(
                        "unknown agent connection profile `"@ + name + "`; "@ + available(
                            "profiles"@,
                            names_of(connections),
                        ),
                    ),
                }
            }
        },
    }
}

/// Finds the connection profile that is asked for.
pub fn selected_connection<'a>(
    name: Option<&str>,
    connections: &'a Vec<(String, FileConnection)>,
) -> (r: Result<Option<(String, &'a FileConnection)>, Failure>)
    ensures
        match r {
            Ok(Some(found)) => selected(str_option(name), named(connections@)) == Ok::<
                _,
                Seq<char>,
            >(Some((found.0@, found.1@))),
            Ok(None) => selected(str_option(name), named(connections@)) == Ok::<
                Option<(Seq<char>, FileConnectionView)>,
                Seq<char>,
            >(None),
            Err(e) => selected(str_option(name), named(connections@)) == Err::<
                Option<(Seq<char>, FileConnectionView)>,
                _,
            >(e.message@),
        },
{
    let name = match name {
        Some(name) => trim(name),
        None => {
            return Ok(None);
        },
    };
    if chars_of(name.as_str()).len() == 0 {
        return fail_with("connection profile name cannot be empty");
    }
    match find_entry(connections, name.as_str()) {
        Some(i) => Ok(Some((name, &connections[i].1))),
        None => {
            let names = entry_names(connections);
            let rest = available_text("profiles", &names);
            fail(
                crate::text::cat4(
                    "unknown agent connection profile `",
                    name.as_str(),
                    "`; ",
                    rest.as_str(),
                ),
            )
        },
    }
}

/// The environment profile that a connection refers to, if it does.
pub open spec fn environment_of(
    name: Option<Seq<char>>,
    environments: Seq<(Seq<char>, FileEnvironmentView)>,
    connection: Option<Seq<char>>,
) -> Result<(Option<Seq<char>>, FileEnvironmentView), Seq<char>> {
    match name {
        None => Ok((None, bare_environment())),
        Some(name) => {
            let name = trimmed(name);
            if name.len() == 0 {
                Err("environment profile name cannot be empty"@)
            } else {
                match lookup(environments, name) {
                    Some(profile) => Ok((Some(name), profile)),
                    None => Err(
                        "Agent connection profile `"@ + or_default(connection, "unnamed"@)
                            + "` references unknown environment profile `"@ + name + "`; "@
                            + available("environments"@, names_of(environments)),
                    ),
                }
            }
        },
    }
}

/// Finds the environment profile that a connection refers to.
pub fn selected_environment<'a>(
    name: Option<&str>,
    environments: &'a Vec<(String, FileEnvironment)>,
    connection_name: Option<&str>,
) -> (r: Result<Option<(String, &'a FileEnvironment)>, Failure>)
    ensures
        match r {
            Ok(Some(found)) => environment_of(
                str_option(name),
                named(environments@),
                str_option(connection_name),
            ) == Ok::<_, Seq<char>>((Some(found.0@), found.1@)),
            Ok(None) => environment_of(
                str_option(name),
                named(environments@),
                str_option(connection_name),
            ) == Ok::<_, Seq<char>>((None::<Seq<char>>, bare_environment())),
            Err(e) => environment_of(
                str_option(name),
                named(environments@),
                str_option(connection_name),
            ) == Err::<(Option<Seq<char>>, FileEnvironmentView), _>(e.message@),
        },
{
    let name = match name {
        Some(name) => trim(name),
        None => {
            return Ok(None);
        },
    };
    if chars_of(name.as_str()).len() == 0 {
        return fail_with("environment profile name cannot be empty");
    }
    match find_entry(environments, name.as_str()) {
        Some(i) => Ok(Some((name, &environments[i].1))),
        None => {
            let names = entry_names(environments);
            let rest = available_text("environments", &names);
            let connection = match connection_name {
                Some(connection) => connection,
                None => "unnamed",
            };
            let head = cat3(
                "Agent connection profile `",
                connection,
                "` references unknown environment profile `",
            );
            fail(crate::text::cat4(head.as_str(), name.as_str(), "`; ", rest.as_str()))
        },
    }
}

/// A table with the entries of another put over it.
pub open spec fn put_all(
    table: Seq<(Seq<char>, EnvironmentValueView)>,
    more: Seq<(Seq<char>, EnvironmentValueView)>,
) -> Seq<(Seq<char>, EnvironmentValueView)>
    decreases more.len(),
{
    if more.len() == 0 {
        table
    } else {
        put(put_all(table, more.drop_last()), more.last().0, more.last().1)
    }
}

fn put_entries(
    table: &mut Vec<(String, ConnectionEnvironmentValue)>,
    more: &Vec<(String, ConnectionEnvironmentValue)>,
)
    ensures
        named(final(table)@) == put_all(named(old(table)@), named(more@)),
{
    let ghost all = named(more@);
    let mut i: usize = 0;
    assert(all.take(0) =~= Seq::empty());
    while i < more.len()
        invariant
            i <= more@.len(),
            all == named(more@),
            named(table@) == put_all(named(old(table)@), all.take(i as int)),
        decreases more@.len() - i,
    {
        proof {
            let upto = all.take(i + 1);
            assert(upto.drop_last() =~= all.take(i as int));
            assert(upto.last() == all[i as int]);
        }
        let entry = &more[i];
        put_entry(table, entry.0.clone(), entry.1.copy());
        i += 1;
    }
    assert(all.take(i as int) =~= all);
}

/// The variables that a connection sets: those of its environment profile, its own put
/// over them.
pub open spec fn merged_env(
    shared: Seq<(Seq<char>, EnvironmentValueView)>,
    own: Seq<(Seq<char>, EnvironmentValueView)>,
) -> Seq<(Seq<char>, EnvironmentValueView)> {
    put_all(put_all(Seq::empty(), shared), own)
}

/// A list with the items of another that it lacks, each once.
pub open spec fn with_missing(list: Seq<Seq<char>>, more: Seq<Seq<char>>) -> Seq<Seq<char>>
    decreases more.len(),
{
    if more.len() == 0 {
        list
    } else {
        let so_far = with_missing(list, more.drop_last());
        if so_far.contains(more.last()) {
            so_far
        } else {
            so_far.push(more.last())
        }
    }
}

pub(crate) fn add_missing(list: &mut Vec<String>, more: &Vec<String>)
    ensures
        texts(final(list)@) == with_missing(texts(old(list)@), texts(more@)),
{
    let ghost all = texts(more@);
    let mut i: usize = 0;
    assert(all.take(0) =~= Seq::empty());
    while i < more.len()
        invariant
            i <= more@.len(),
            all == texts(more@),
            texts(list@) == with_missing(texts(old(list)@), all.take(i as int)),
        decreases more@.len() - i,
    {
        proof {
            let upto = all.take(i + 1);
            assert(upto.drop_last() =~= all.take(i as int));
            assert(upto.last() == all[i as int]);
        }
        if !holds(list, more[i].as_str()) {
            push_text(list, more[i].as_str());
        }
        i += 1;
    }
    assert(all.take(i as int) =~= all);
}

/// What the command line, or the head of the configuration file, sets for a connection.
#[derive(Debug, Clone)]
pub struct ConnectionSettings {
    pub command: Option<String>,
    pub model: Option<String>,
    pub window: Option<u64>,
    pub percentage: Option<u8>,
    pub output_tokens: Option<u64>,
}

pub struct SettingsView {
    pub command: Option<Seq<char>>,
    pub model: Option<Seq<char>>,
    pub window: Option<u64>,
    pub percentage: Option<u8>,
    pub output_tokens: Option<u64>,
}

impl View for ConnectionSettings {
    type V = SettingsView;

    open spec fn view(&self) -> SettingsView {
        SettingsView {
            command: text_option(self.command),
            model: text_option(self.model),
            window: self.window,
            percentage: self.percentage,
            output_tokens: self.output_tokens,
        }
    }
}

/// The connection that a profile and the settings round it give. The command line comes
/// before the profile, and the profile before the head of the file; a connection without
/// a profile is not isolated.
pub open spec fn connected(
    profile: Option<(Seq<char>, FileConnectionView)>,
    environments: Seq<(Seq<char>, FileEnvironmentView)>,
    line: SettingsView,
    head: SettingsView,
    h: HarnessView,
) -> Result<AgentConnectionView, Seq<char>> {
    let name = match profile {
        Some(p) => Some(p.0),
        None => None,
    };
    let own = match profile {
        Some(p) => p.1,
        None => bare_connection(),
    };
    match environment_of(own.environment, environments, name) {
        Err(message) => Err(message),
        Ok(found) => if own.permission_profile is Some && own.backend != BackendKind::Codex {
            Err(
                "connection profile `"@ + or_default(name, "unnamed"@)
                    + "` sets permission_profile, which is supported only by the Codex backend"@,
            )
        } else {
            Ok(
                AgentConnectionView {
                    name,
                    backend: own.backend,
                    environment_name: found.0,
                    command: or_default(
                        first(first(line.command, own.command), head.command),
                        own.backend.command(h),
                    ),
                    model: first(first(line.model, own.model), head.model),
                    permission_profile: own.permission_profile,
                    structured_output: true,
                    context_window: own.context_window,
                    auto_compact_window: first(
                        first(line.window, own.auto_compact_window),
                        head.window,
                    ),
                    auto_compact_percent: first(
                        first(line.percentage, own.auto_compact_percent),
                        head.percentage,
                    ),
                    max_output_tokens: first(
                        first(line.output_tokens, own.max_output_tokens),
                        head.output_tokens,
                    ),
                    env: merged_env(found.1.env, own.env),
                    isolate: name is Some && or_default(first(own.isolate, found.1.isolate), true),
                    unset_env: with_missing(found.1.unset_env, own.unset_env),
                },
            )
        },
    }
}

/// Puts a connection together.
pub fn resolve_connection(
    profile: Option<(String, &FileConnection)>,
    environments: &Vec<(String, FileEnvironment)>,
    line: &ConnectionSettings,
    head: &ConnectionSettings,
    harness: &Harness,
) -> (r: Result<AgentConnection, Failure>)
    ensures
        outcome(r) == connected(
            match profile {
                Some(p) => Some((p.0@, p.1@)),
                None => None,
            },
            named(environments@),
            line@,
            head@,
            harness@,
        ),
{
    let bare = FileConnection::default();
    let (name, own): (Option<String>, &FileConnection) = match profile {
        Some(p) => (Some(p.0), p.1),
        None => (None, &bare),
    };
    let asked = match &own.environment {
        Some(environment) => Some(environment.as_str()),
        None => None,
    };
    let called = match &name {
        Some(name) => Some(name.as_str()),
        None => None,
    };
    let plain = FileEnvironment::default();
    let (environment_name, shared): (Option<String>, &FileEnvironment) = match selected_environment(
        asked,
        environments,
        called,
    ) {
        Ok(Some(found)) => (Some(found.0), found.1),
        Ok(None) => (None, &plain),
        Err(e) => {
            return Err(e);
        },
    };
    if own.permission_profile.is_some() && own.backend != BackendKind::Codex {
        let shown = match called {
            Some(name) => name,
            None => "unnamed",
        };
        return fail(
            cat3(
                "connection profile `",
                shown,
                "` sets permission_profile, which is supported only by the Codex backend",
            ),
        );
    }
    let mut env: Vec<(String, ConnectionEnvironmentValue)> = Vec::new();
    assert(named(env@) =~= Seq::empty());
    put_entries(&mut env, &shared.env);
    put_entries(&mut env, &own.env);
    let mut unset_env = copy_all(&shared.unset_env);
    add_missing(&mut unset_env, &own.unset_env);
    let isolate = name.is_some() && match first_of(own.isolate, shared.isolate) {
        Some(isolate) => isolate,
        None => true,
    };
    let upper = first_text(&line.command, &own.command);
    let command = text_or(first_text(&upper, &head.command), own.backend.default_command(harness));
    let upper_model = first_text(&line.model, &own.model);
    Ok(
        AgentConnection {
            name,
            backend: own.backend,
            environment_name,
            command,
            model: first_text(&upper_model, &head.model),
            permission_profile: copy_option(&own.permission_profile),
            structured_output: true,
            context_window: own.context_window,
            auto_compact_window: first_of(
                first_of(line.window, own.auto_compact_window),
                head.window,
            ),
            auto_compact_percent: first_of(
                first_of(line.percentage, own.auto_compact_percent),
                head.percentage,
            ),
            max_output_tokens: first_of(
                first_of(line.output_tokens, own.max_output_tokens),
                head.output_tokens,
            ),
            env,
            isolate,
            unset_env,
        },
    )
}

/// What a run is asked to do. The words `next slice` stand for `advance`, in any case.
pub open spec fn request_of(args: CliArgs) -> Seq<char> {
    match text_option(args.request) {
        Some(value) => if lowered(trimmed(value)) == "next slice"@ {
            "advance"@
        } else {
            value
        },
        None => if args.interactive || args.test_connection is Some || args.update_skills
            || args.resume || args.forget || args.continue_existing {
            ""@
        } else {
            "advance"@
        },
    }
}

fn requested(args: &CliArgs) -> (r: String)
    ensures
        r@ == request_of(*args),
{
    match &args.request {
        Some(value) => {
            let bare = trim(value.as_str());
            let low = to_lower(bare.as_str());
            if equal(low.as_str(), "next slice") {
                "advance".to_owned()
            } else {
                value.clone()
            }
        },
        None => if args.interactive || args.test_connection.is_some() || args.update_skills
            || args.resume || args.forget || args.continue_existing {
            "".to_owned()
        } else {
            "advance".to_owned()
        },
    }
}

/// What the command line sets for the worker.
pub open spec fn worker_line(args: CliArgs) -> SettingsView {
    SettingsView {
        command: text_option(args.claude_command),
        model: text_option(args.claude_model),
        window: args.auto_compact_window,
        percentage: args.auto_compact_percent,
        output_tokens: args.max_output_tokens,
    }
}

/// What the head of the file sets for the worker.
pub open spec fn worker_head(config: FileConfig) -> SettingsView {
    SettingsView {
        command: text_option(config.claude_command),
        model: text_option(config.claude_model),
        window: config.auto_compact_window,
        percentage: config.auto_compact_percent,
        output_tokens: config.max_output_tokens,
    }
}

/// What is set for the frontier model: a command and a model, no limits.
pub open spec fn frontier_settings(command: Option<Seq<char>>, model: Option<Seq<char>>) -> SettingsView {
    SettingsView { command, model, window: None, percentage: None, output_tokens: None }
}

/// The settings that the parts give together: the command line comes before the
/// configuration file, and that before the default.
pub open spec fn assembled(
    args: CliArgs,
    config: FileConfig,
    defines: Seq<(Seq<char>, Seq<char>)>,
    worker: AgentConnectionView,
    frontier: AgentConnectionView,
    config_path: Option<Seq<char>>,
) -> CliView {
    let asked = request_of(args);
    let execute = asked == "execute"@;
    CliView {
        request: if execute { "advance"@ } else { asked },
        execute: execute,
        rewind_target: if !execute && asked == "rewind"@ {
            Some(
                match text_option(args.rewind_target) {
                    Some(target) => target,
                    None => DEFAULT_REWIND_TARGET@,
                },
            )
        } else {
            text_option(args.rewind_target)
        },
        yes: args.yes,
        bootstrap_context: text_option(args.context),
        bootstrap_defines: defines,
        repo: args.repo@,
        sidecar: args.sidecar || config.sidecar == Some(true),
        sidecar_root: first(text_option(args.sidecar_root), text_option(config.sidecar_root)),
        local_only: args.local_only || config.local_only == Some(true),
        yolo: !args.no_yolo && (args.yolo || config.yolo == Some(true)),
        interactive: args.interactive,
        test_connection: text_option(args.test_connection),
        basic_connection_test: args.basic_connection_test,
        update_skills: args.update_skills,
        resume: args.resume,
        forget: args.forget,
        continue_existing: args.continue_existing,
        loop_workflow: !args.no_loop && (execute || args.loop_workflow || config.loop_workflow == Some(true)),
        no_loop: args.no_loop,
        max_iterations: first(args.max_iterations, config.max_iterations),
        change: text_option(args.change),
        direction: text_option(args.direction),
        interactive_args: texts(args.interactive_args@),
        max_verify_retries: or_default(first(args.max_verify_retries, config.max_verify_retries), DEFAULT_MAX_VERIFY_RETRIES),
        max_output_retries: or_default(first(args.max_output_retries, config.max_output_retries), DEFAULT_MAX_OUTPUT_RETRIES),
        max_provider_retries: or_default(first(args.max_provider_retries, config.max_provider_retries), DEFAULT_MAX_PROVIDER_RETRIES),
        local_worker_timeout_minutes: or_default(first(args.local_worker_timeout_minutes, config.local_worker_timeout_minutes), DEFAULT_LOCAL_WORKER_TIMEOUT_MINUTES),
        verbose: args.verbose,
        debug: args.debug,
        stream_claude: first(args.stream_claude, config.stream_claude),
        dry_run: args.dry_run,
        permission_mode: or_default(first(text_option(args.permission_mode), text_option(config.permission_mode)), DEFAULT_PERMISSION_MODE@),
        worker_connection: worker,
        frontier_connection: frontier,
        explore_command: first(text_option(args.explore_command), text_option(config.explore_command)),
        propose_command: first(text_option(args.propose_command), text_option(config.propose_command)),
        apply_command: first(text_option(args.apply_command), text_option(config.apply_command)),
        verify_command: first(text_option(args.verify_command), text_option(config.verify_command)),
        archive_command: first(text_option(args.archive_command), text_option(config.archive_command)),
        config_path: config_path,
    }
}

/// The settings of a run, or why there are none.
pub open spec fn resolved(
    args: CliArgs,
    config: FileConfig,
    config_path: Option<Seq<char>>,
    h: HarnessView,
) -> Result<CliView, Seq<char>> {
    match defined(texts(args.define@)) {
        Err(message) => Err(message),
        Ok(defines) => match selected(
            first(
                text_option(args.test_connection),
                first(text_option(args.worker_connection), text_option(config.worker_connection)),
            ),
            named(config.connections@),
        ) {
            Err(message) => Err(message),
            Ok(worker_profile) => match selected(
                first(
                    text_option(args.frontier_connection),
                    text_option(config.frontier_connection),
                ),
                named(config.connections@),
            ) {
                Err(message) => Err(message),
                Ok(frontier_profile) => match connected(
                    worker_profile,
                    named(config.environments@),
                    worker_line(args),
                    worker_head(config),
                    h,
                ) {
                    Err(message) => Err(message),
                    Ok(worker) => match connected(
                        frontier_profile,
                        named(config.environments@),
                        frontier_settings(
                            text_option(args.frontier_command),
                            text_option(args.frontier_model),
                        ),
                        frontier_settings(
                            text_option(config.frontier_command),
                            text_option(config.frontier_model),
                        ),
                        h,
                    ) {
                        Err(message) => Err(message),
                        Ok(frontier) => Ok(
                            assembled(args, config, defines, worker, frontier, config_path),
                        ),
                    },
                },
            },
        },
    }
}

fn as_str_option(o: &Option<String>) -> (r: Option<&str>)
    ensures
        str_option(r) == text_option(*o),
{
    match o {
        Some(t) => Some(t.as_str()),
        None => None,
    }
}

/// Puts the settings of a run together.
pub fn resolve_values(
    args: &CliArgs,
    config: &FileConfig,
    config_path: Option<String>,
    harness: &Harness,
) -> (r: Result<Cli, Failure>)
    ensures
        outcome(r) == resolved(*args, *config, text_option(config_path), harness@),
{
    let defines = match parse_bootstrap_defines(&args.define) {
        Ok(defines) => defines,
        Err(e) => {
            return Err(e);
        },
    };
    let listed = first_text(&args.worker_connection, &config.worker_connection);
    let worker_name = first_text(&args.test_connection, &listed);
    let worker_profile = match selected_connection(as_str_option(&worker_name), &config.connections) {
        Ok(profile) => profile,
        Err(e) => {
            return Err(e);
        },
    };
    let frontier_name = first_text(&args.frontier_connection, &config.frontier_connection);
    let frontier_profile = match selected_connection(
        as_str_option(&frontier_name),
        &config.connections,
    ) {
        Ok(profile) => profile,
        Err(e) => {
            return Err(e);
        },
    };
    let worker_line = ConnectionSettings {
        command: copy_option(&args.claude_command),
        model: copy_option(&args.claude_model),
        window: args.auto_compact_window,
        percentage: args.auto_compact_percent,
        output_tokens: args.max_output_tokens,
    };
    let worker_head = ConnectionSettings {
        command: copy_option(&config.claude_command),
        model: copy_option(&config.claude_model),
        window: config.auto_compact_window,
        percentage: config.auto_compact_percent,
        output_tokens: config.max_output_tokens,
    };
    let worker = match resolve_connection(
        worker_profile,
        &config.environments,
        &worker_line,
        &worker_head,
        harness,
    ) {
        Ok(worker) => worker,
        Err(e) => {
            return Err(e);
        },
    };
    let frontier_line = ConnectionSettings {
        command: copy_option(&args.frontier_command),
        model: copy_option(&args.frontier_model),
        window: None,
        percentage: None,
        output_tokens: None,
    };
    let frontier_head = ConnectionSettings {
        command: copy_option(&config.frontier_command),
        model: copy_option(&config.frontier_model),
        window: None,
        percentage: None,
        output_tokens: None,
    };
    let frontier = match resolve_connection(
        frontier_profile,
        &config.environments,
        &frontier_line,
        &frontier_head,
        harness,
    ) {
        Ok(frontier) => frontier,
        Err(e) => {
            return Err(e);
        },
    };
    Ok(assemble(args, config, defines, worker, frontier, config_path))
}

#[verifier::rlimit(40)]
fn assemble(
    args: &CliArgs,
    config: &FileConfig,
    defines: Vec<(String, String)>,
    worker: AgentConnection,
    frontier: AgentConnection,
    config_path: Option<String>,
) -> (r: Cli)
    ensures
        r@ == assembled(
            *args,
            *config,
            named(defines@),
            worker@,
            frontier@,
            text_option(config_path),
        ),
{
    let asked = requested(args);
    let execute = equal(asked.as_str(), "execute");
    let rewind = !execute && equal(asked.as_str(), "rewind");
    let request = if execute {
        "advance".to_owned()
    } else {
        asked
    };
    let rewind_target = if rewind {
        Some(text_or(copy_option(&args.rewind_target), DEFAULT_REWIND_TARGET))
    } else {
        copy_option(&args.rewind_target)
    };

    Cli {
        request: request,
        execute: execute,
        rewind_target: rewind_target,
        yes: args.yes,
        bootstrap_context: copy_option(&args.context),
        bootstrap_defines: defines,
        repo: args.repo.clone(),
        sidecar: args.sidecar || flag(config.sidecar),
        sidecar_root: first_text(&args.sidecar_root, &config.sidecar_root),
        local_only: args.local_only || flag(config.local_only),
        yolo: !args.no_yolo && (args.yolo || flag(config.yolo)),
        interactive: args.interactive,
        test_connection: copy_option(&args.test_connection),
        basic_connection_test: args.basic_connection_test,
        update_skills: args.update_skills,
        resume: args.resume,
        forget: args.forget,
        continue_existing: args.continue_existing,
        loop_workflow: !args.no_loop && (execute || args.loop_workflow || flag(config.loop_workflow)),
        no_loop: args.no_loop,
        max_iterations: first_of(args.max_iterations, config.max_iterations),
        change: copy_option(&args.change),
        direction: copy_option(&args.direction),
        interactive_args: copy_all(&args.interactive_args),
        max_verify_retries: value_or(first_of(args.max_verify_retries, config.max_verify_retries), DEFAULT_MAX_VERIFY_RETRIES),
        max_output_retries: value_or(first_of(args.max_output_retries, config.max_output_retries), DEFAULT_MAX_OUTPUT_RETRIES),
        max_provider_retries: value_or(first_of(args.max_provider_retries, config.max_provider_retries), DEFAULT_MAX_PROVIDER_RETRIES),
        local_worker_timeout_minutes: value_or(first_of(args.local_worker_timeout_minutes, config.local_worker_timeout_minutes), DEFAULT_LOCAL_WORKER_TIMEOUT_MINUTES),
        verbose: args.verbose,
        debug: args.debug,
        stream_claude: first_of(args.stream_claude, config.stream_claude),
        dry_run: args.dry_run,
        permission_mode: text_or(first_text(&args.permission_mode, &config.permission_mode), DEFAULT_PERMISSION_MODE),
        worker_connection: worker,
        frontier_connection: frontier,
        explore_command: first_text(&args.explore_command, &config.explore_command),
        propose_command: first_text(&args.propose_command, &config.propose_command),
        apply_command: first_text(&args.apply_command, &config.apply_command),
        verify_command: first_text(&args.verify_command, &config.verify_command),
        archive_command: first_text(&args.archive_command, &config.archive_command),
        config_path: config_path,
    }
}

/// What keeps settings from going together, if anything does: the first rule that they
/// break. `request_supplied` says whether the command line names a request, and
/// `limit_supplied` whether it bounds the iterations.
pub open spec fn conflict(c: CliView, request_supplied: bool, limit_supplied: bool) -> Option<
    Seq<char>,
> {
    let rewind = c.request == "rewind"@;
    let bootstrap = c.request == "bootstrap"@;
    let upkeep = c.resume || c.forget || c.update_skills;
    let other_mode = c.interactive || c.test_connection is Some || upkeep || c.continue_existing
        || c.change is Some || c.direction is Some;
    if c.rewind_target is Some && !rewind {
        Some("a rewind target is only valid with `opsx-build rewind [REF]`"@)
    } else if c.yes && !rewind {
        Some("--yes is only valid with `opsx-build rewind [REF]`"@)
    } else if rewind && (c.bootstrap_context is Some || c.bootstrap_defines.len() > 0
        || other_mode) {
        Some("`opsx-build rewind` cannot be combined with another workflow mode"@)
    } else if limit_supplied && !c.loop_workflow {
        Some("--max-iterations requires --loop (or `loop = true` in config)"@)
    } else if c.loop_workflow && c.continue_existing {
        Some("--loop cannot be combined with --continue-existing"@)
    } else if c.bootstrap_context is Some && !bootstrap && !c.execute && !c.sidecar {
        Some(
            "--context is only valid with `opsx-build bootstrap`, `opsx-build execute`, or --sidecar"@,
        )
    } else if c.bootstrap_defines.len() > 0 && !bootstrap && !c.execute {
        Some("--define is only valid with `opsx-build bootstrap` or `opsx-build execute`"@)
    } else if c.change is Some && !c.continue_existing && (!request_supplied || c.request
        == "advance"@) {
        Some("--change requires an explicit free-form request or --continue-existing"@)
    } else if c.change is Some && !c.continue_existing && c.loop_workflow {
        Some("--change cannot prescribe one name for a multi-change campaign"@)
    } else if bootstrap && (other_mode || c.loop_workflow || c.no_loop || c.max_iterations is Some
        || c.sidecar || c.local_only) {
        Some("`opsx-build bootstrap` cannot be combined with another workflow mode"@)
    } else if c.execute && (other_mode || c.no_loop || c.sidecar || c.local_only) {
        Some("`opsx-build execute` cannot be combined with another workflow mode"@)
    } else if c.sidecar && !upkeep && (c.request == "advance"@ || c.request == ""@) {
        Some("--sidecar requires an explicit bounded change request"@)
    } else if c.sidecar && c.loop_workflow {
        Some("the initial sidecar release supports one bounded change, not --loop"@)
    } else if c.sidecar && c.continue_existing {
        Some("the initial sidecar release does not support --continue-existing"@)
    } else if c.sidecar && !upkeep && c.change is None {
        Some("--sidecar requires --change NAME for a bounded one-off change"@)
    } else {
        None
    }
}

/// The settings of a run, or why there are none: the parts cannot be read, or they do
/// not go together.
pub open spec fn loaded(
    args: CliArgs,
    config: FileConfig,
    config_path: Option<Seq<char>>,
    h: HarnessView,
) -> Result<CliView, Seq<char>> {
    match resolved(args, config, config_path, h) {
        Err(message) => Err(message),
        Ok(cli) => match conflict(cli, args.request is Some, args.max_iterations is Some) {
            Some(message) => Err(message),
            None => Ok(cli),
        },
    }
}

impl Cli {
    /// The settings of a run, from the command line and the configuration file.
    pub fn load(
        args: &CliArgs,
        config: &FileConfig,
        config_path: Option<String>,
        harness: &Harness,
    ) -> (r: Result<Cli, Failure>)
        ensures
            outcome(r) == loaded(*args, *config, text_option(config_path), harness@),
    {
        let cli = match resolve_values(args, config, config_path, harness) {
            Ok(cli) => cli,
            Err(e) => {
                return Err(e);
            },
        };
        let rewind = equal(cli.request.as_str(), "rewind");
        let bootstrap = equal(cli.request.as_str(), "bootstrap");
        let advance = equal(cli.request.as_str(), "advance");
        let silent = equal(cli.request.as_str(), "");
        let upkeep = cli.resume || cli.forget || cli.update_skills;
        let other_mode = cli.interactive || cli.test_connection.is_some() || upkeep
            || cli.continue_existing || cli.change.is_some() || cli.direction.is_some();
        let context = cli.bootstrap_context.is_some();
        let defines = cli.bootstrap_defines.len() > 0;
        if cli.rewind_target.is_some() && !rewind {
            return fail_with("a rewind target is only valid with `opsx-build rewind [REF]`");
        }
        if cli.yes && !rewind {
            return fail_with("--yes is only valid with `opsx-build rewind [REF]`");
        }
        if rewind && (context || defines || other_mode) {
            return fail_with("`opsx-build rewind` cannot be combined with another workflow mode");
        }
        if args.max_iterations.is_some() && !cli.loop_workflow {
            return fail_with("--max-iterations requires --loop (or `loop = true` in config)");
        }
        if cli.loop_workflow && cli.continue_existing {
            return fail_with("--loop cannot be combined with --continue-existing");
        }
        if context && !bootstrap && !cli.execute && !cli.sidecar {
            return fail_with(
                "--context is only valid with `opsx-build bootstrap`, `opsx-build execute`, or --sidecar",
            );
        }
        if defines && !bootstrap && !cli.execute {
            return fail_with(
                "--define is only valid with `opsx-build bootstrap` or `opsx-build execute`",
            );
        }
        if cli.change.is_some() && !cli.continue_existing {
            if args.request.is_none() || advance {
                return fail_with(
                    "--change requires an explicit free-form request or --continue-existing",
                );
            }
            if cli.loop_workflow {
                return fail_with("--change cannot prescribe one name for a multi-change campaign");
            }
        }
        if bootstrap && (other_mode || cli.loop_workflow || cli.no_loop
            || cli.max_iterations.is_some() || cli.sidecar || cli.local_only) {
            return fail_with("`opsx-build bootstrap` cannot be combined with another workflow mode");
        }
        if cli.execute && (other_mode || cli.no_loop || cli.sidecar || cli.local_only) {
            return fail_with("`opsx-build execute` cannot be combined with another workflow mode");
        }
        if cli.sidecar && !upkeep && (advance || silent) {
            return fail_with("--sidecar requires an explicit bounded change request");
        }
        if cli.sidecar && cli.loop_workflow {
            return fail_with("the initial sidecar release supports one bounded change, not --loop");
        }
        if cli.sidecar && cli.continue_existing {
            return fail_with("the initial sidecar release does not support --continue-existing");
        }
        if cli.sidecar && !upkeep && cli.change.is_none() {
            return fail_with("--sidecar requires --change NAME for a bounded one-off change");
        }
        Ok(cli)
    }
}

/// Settings that are accepted go together: a campaign neither continues an existing
/// change nor prescribes one name, a sidecar run is one bounded change, and only a rewind
/// has a target or a confirmation.
pub proof fn law_accepted_settings_go_together(
    args: CliArgs,
    config: FileConfig,
    config_path: Option<Seq<char>>,
    h: HarnessView,
)
    ensures
        loaded(args, config, config_path, h) matches Ok(c) ==> {
            &&& c.loop_workflow ==> !c.continue_existing && c.change is None
            &&& c.sidecar ==> !c.loop_workflow && !c.continue_existing
            &&& c.sidecar && !(c.resume || c.forget || c.update_skills) ==> c.change is Some
            &&& c.rewind_target is Some <==> c.request == "rewind"@
            &&& c.yes ==> c.request == "rewind"@
            &&& c.execute ==> c.request == "advance"@ && !c.sidecar && !c.local_only
        },
{
    reveal_strlit("advance");
    reveal_strlit("rewind");
    assert("advance"@.len() != "rewind"@.len());
}

/// The switches that turn a setting off come before everything that turns it on.
pub proof fn law_off_switches_win(
    args: CliArgs,
    config: FileConfig,
    config_path: Option<Seq<char>>,
    h: HarnessView,
)
    ensures
        resolved(args, config, config_path, h) matches Ok(c) ==> {
            &&& args.no_yolo ==> !c.yolo
            &&& args.no_loop ==> !c.loop_workflow
            &&& c.yolo ==> args.yolo || config.yolo == Some(true)
        },
{
}

/// Whatever the command line sets decides, whatever the configuration file says.
pub proof fn law_command_line_comes_first(
    args: CliArgs,
    config: FileConfig,
    config_path: Option<Seq<char>>,
    h: HarnessView,
)
    ensures
        resolved(args, config, config_path, h) matches Ok(c) ==> {
            &&& args.claude_command is Some ==> Some(c.worker_connection.command) == text_option(
                args.claude_command,
            )
            &&& args.claude_model is Some ==> c.worker_connection.model == text_option(
                args.claude_model,
            )
            &&& args.frontier_command is Some ==> Some(c.frontier_connection.command)
                == text_option(args.frontier_command)
            &&& args.frontier_model is Some ==> c.frontier_connection.model == text_option(
                args.frontier_model,
            )
            &&& args.max_verify_retries matches Some(n) ==> c.max_verify_retries == n
            &&& args.max_iterations is Some ==> c.max_iterations == args.max_iterations
            &&& args.permission_mode is Some ==> Some(c.permission_mode) == text_option(
                args.permission_mode,
            )
            &&& args.stream_claude is Some ==> c.stream_claude == args.stream_claude
        },
{
}

/// A test of a named connection exercises the profile of that name as the worker.
pub proof fn law_tested_connection_is_the_worker(
    args: CliArgs,
    config: FileConfig,
    config_path: Option<Seq<char>>,
    h: HarnessView,
)
    requires
        args.test_connection is Some,
    ensures
        resolved(args, config, config_path, h) matches Ok(c) ==> c.worker_connection.name == Some(
            trimmed(text_option(args.test_connection)->0),
        ),
{
}

/// Where the configuration comes from.
#[derive(Debug, Clone, PartialEq, Eq)]
pub enum ConfigSource {
    /// None is read.
    Defaults,
    /// The file that was named, which has to be there.
    Named(String),
    /// The file of the user, if it is there.
    User(String),
}

/// The configuration file under the user's configuration directory. The older place is
/// used where only it has a file.
pub open spec fn user_config(root: Seq<char>, canonical: bool, legacy: bool) -> Seq<char> {
    if !canonical && legacy {
        joined_path(root, "ospx-build/config.toml"@)
    } else {
        joined_path(root, "opsx-build/config.toml"@)
    }
}

/// Chooses between the two places of the configuration file. The flags say which of the
/// two files exist.
pub fn config_path_under(root: &str, canonical_exists: bool, legacy_exists: bool) -> (r: String)
    ensures
        r@ == user_config(root@, canonical_exists, legacy_exists),
{
    if !canonical_exists && legacy_exists {
        join_path(root, "ospx-build/config.toml")
    } else {
        join_path(root, "opsx-build/config.toml")
    }
}

/// The user's configuration directory: the one that the desktop names, else the one in
/// the home directory.
pub open spec fn config_root(desktop: Option<Seq<char>>, home: Option<Seq<char>>) -> Option<
    Seq<char>,
> {
    if desktop is Some && desktop->0.len() > 0 {
        desktop
    } else if home is Some && home->0.len() > 0 {
        Some(joined_path(home->0, ".config"@))
    } else {
        None
    }
}

/// The user's configuration directory, from `XDG_CONFIG_HOME` and `HOME`.
pub fn default_config_root(desktop: Option<&str>, home: Option<&str>) -> (r: Option<String>)
    ensures
        text_option(r) == config_root(str_option(desktop), str_option(home)),
{
    if let Some(root) = desktop {
        if chars_of(root).len() > 0 {
            return Some(root.to_owned());
        }
    }
    match home {
        Some(home) => if chars_of(home).len() > 0 {
            Some(join_path(home, ".config"))
        } else {
            None
        },
        None => None,
    }
}

/// Decides where the configuration comes from: nowhere if that is asked, else the file
/// that is named, on the command line or by the older variable, else the user's.
pub fn config_source(
    args: &CliArgs,
    legacy_config: Option<&str>,
    user_config_path: Option<&str>,
) -> (r: ConfigSource)
    ensures
        match r {
            ConfigSource::Defaults => args.no_config || (args.config is None && legacy_config is None
                && user_config_path is None),
            ConfigSource::Named(path) => !args.no_config && Some(path@) == first(
                text_option(args.config),
                str_option(legacy_config),
            ),
            ConfigSource::User(path) => !args.no_config && args.config is None
                && legacy_config is None && Some(path@) == str_option(user_config_path),
        },
{
    if args.no_config {
        return ConfigSource::Defaults;
    }
    if let Some(path) = &args.config {
        return ConfigSource::Named(path.clone());
    }
    if let Some(path) = legacy_config {
        return ConfigSource::Named(path.to_owned());
    }
    match user_config_path {
        Some(path) => ConfigSource::User(path.to_owned()),
        None => ConfigSource::Defaults,
    }
}

/// A number of tokens as it is written: without blanks round it and underscores in it,
/// in any case.
pub open spec fn token_text(value: Seq<char>) -> Seq<char> {
    lowered(replaced(trimmed(value), "_"@, ""@))
}

/// The digits of a number of tokens, and what its suffix multiplies them by.
pub open spec fn token_parts(text: Seq<char>) -> (Seq<char>, nat) {
    match before_suffix(text, "k"@) {
        Some(digits) => (digits, 1_024),
        None => match before_suffix(text, "m"@) {
            Some(digits) => (digits, 1_048_576),
            None => (text, 1),
        },
    }
}

/// The number of tokens that a text gives, or why it gives none.
pub open spec fn token_count(value: Seq<char>) -> Result<u64, Seq<char>> {
    let text = token_text(value);
    let parts = token_parts(text);
    if ends(text, "%"@) {
        Err("use --auto-compact-percent for percentage thresholds"@)
    } else {
        match unsigned_value(parts.0) {
            Some(n) => if n > u64::MAX {
                Err("invalid token count `"@ + value + "`"@)
            } else if n * parts.1 > u64::MAX {
                Err("token count `"@ + value + "` is too large"@)
            } else if n * parts.1 == 0 {
                Err("token count must be greater than zero"@)
            } else {
                Ok((n * parts.1) as u64)
            },
            None => Err("invalid token count `"@ + value + "`"@),
        }
    }
}

/// Reads a number of tokens: digits, with a binary suffix `k` or `m`.
pub fn parse_token_count(value: &str) -> (r: Result<u64, Failure>)
    ensures
        match r {
            Ok(n) => token_count(value@) == Ok::<_, Seq<char>>(n) && n > 0,
            Err(e) => token_count(value@) == Err::<u64, _>(e.message@),
        },
{
    proof {
        reveal_strlit("_");
    }
    let bare = trim(value);
    let joined_up = replace(bare.as_str(), "_", "");
    let text = to_lower(joined_up.as_str());
    if ends_with(text.as_str(), "%") {
        return fail_with("use --auto-compact-percent for percentage thresholds");
    }
    let (digits, multiplier): (String, u64) = match strip_suffix(text.as_str(), "k") {
        Some(digits) => (digits, 1_024),
        None => match strip_suffix(text.as_str(), "m") {
            Some(digits) => (digits, 1_048_576),
            None => (text, 1),
        },
    };
    let count = match parse_unsigned(digits.as_str()) {
        Some(count) => count,
        None => {
            return fail(cat3("invalid token count `", value, "`"));
        },
    };
    let count = match count.checked_mul(multiplier) {
        Some(count) => count,
        None => {
            return fail(cat3("token count `", value, "` is too large"));
        },
    };
    if count == 0 {
        return fail_with("token count must be greater than zero");
    }
    Ok(count)
}

/// The percentage that a text gives, or why it gives none.
pub open spec fn percentage(value: Seq<char>) -> Result<u8, Seq<char>> {
    let digits = or_default(before_suffix(trimmed(value), "%"@), trimmed(value));
    match unsigned_value(digits) {
        Some(n) => if n > u8::MAX {
            Err("invalid percentage `"@ + value + "`"@)
        } else if n == 0 || n > 100 {
            Err("percentage must be between 1 and 100"@)
        } else {
            Ok(n as u8)
        },
        None => Err("invalid percentage `"@ + value + "`"@),
    }
}

/// Reads a percentage, with or without its sign.
pub fn parse_percentage(value: &str) -> (r: Result<u8, Failure>)
    ensures
        match r {
            Ok(n) => percentage(value@) == Ok::<_, Seq<char>>(n) && 1 <= n <= 100,
            Err(e) => percentage(value@) == Err::<u8, _>(e.message@),
        },
{
    let bare = trim(value);
    let digits = match strip_suffix(bare.as_str(), "%") {
        Some(digits) => digits,
        None => bare,
    };
    match parse_unsigned(digits.as_str()) {
        Some(n) => if n > 255 {
            fail(cat3("invalid percentage `", value, "`"))
        } else if n == 0 || n > 100 {
            fail_with("percentage must be between 1 and 100")
        } else {
            Ok(n as u8)
        },
        None => fail(cat3("invalid percentage `", value, "`")),
    }
}

/// The filter that a word names.
pub open spec fn filter_named(word: Seq<char>) -> Option<StreamFilter> {
    if word == "activity"@ {
        Some(StreamFilter::Activity)
    } else if word == "full"@ {
        Some(StreamFilter::Full)
    } else if word == "raw"@ {
        Some(StreamFilter::Raw)
    } else {
        None
    }
}

/// The filter that the older variable asks for, or why it is refused.
pub open spec fn legacy_stream(value: Option<String>) -> Result<Option<StreamFilter>, Seq<char>> {
    match value {
        None => Ok(None),
        Some(word) => match filter_named(word@) {
            Some(filter) => Ok(Some(filter)),
            None => Err(
                "invalid legacy environment variable OSPX_BUILD_STREAM_CLAUDE="@ + debug_literal(
                    word@,
                ) + "; expected activity, full, or raw"@,
            ),
        },
    }
}

/// The filter that the older variable asks for, if it asks for one.
pub open spec fn legacy_filter(value: Option<String>) -> Option<StreamFilter> {
    match legacy_stream(value) {
        Ok(filter) => filter,
        Err(_) => None,
    }
}

fn legacy_stream_filter(value: &Option<String>) -> (r: Result<Option<StreamFilter>, Failure>)
    ensures
        match r {
            Ok(filter) => legacy_stream(*value) == Ok::<_, Seq<char>>(filter),
            Err(e) => legacy_stream(*value) == Err::<Option<StreamFilter>, _>(e.message@),
        },
{
    match value {
        None => Ok(None),
        Some(word) => if equal(word.as_str(), "activity") {
            Ok(Some(StreamFilter::Activity))
        } else if equal(word.as_str(), "full") {
            Ok(Some(StreamFilter::Full))
        } else if equal(word.as_str(), "raw") {
            Ok(Some(StreamFilter::Raw))
        } else {
            let shown = debug_text(word.as_str());
            fail(
                cat3(
                    "invalid legacy environment variable OSPX_BUILD_STREAM_CLAUDE=",
                    shown.as_str(),
                    "; expected activity, full, or raw",
                ),
            )
        },
    }
}

/// The settings of the older variables of the environment, each where it is set.
#[derive(Debug, Clone)]
pub struct LegacyEnvironment {
    pub max_verify_retries: Option<u32>,
    pub max_output_retries: Option<u32>,
    pub max_provider_retries: Option<u32>,
    pub local_worker_timeout_minutes: Option<u32>,
    pub yolo: Option<bool>,
    pub loop_workflow: Option<bool>,
    pub max_iterations: Option<u32>,
    pub permission_mode: Option<String>,
    pub claude_command: Option<String>,
    pub claude_model: Option<String>,
    pub frontier_command: Option<String>,
    pub frontier_model: Option<String>,
    pub worker_connection: Option<String>,
    pub frontier_connection: Option<String>,
    pub auto_compact_window: Option<u64>,
    pub auto_compact_percent: Option<u8>,
    pub max_output_tokens: Option<u64>,
    pub explore_command: Option<String>,
    pub propose_command: Option<String>,
    pub apply_command: Option<String>,
    pub verify_command: Option<String>,
    pub archive_command: Option<String>,
    pub stream_claude: Option<String>,
}

/// The configuration with the older variables put over it: each that is set replaces the
/// setting of the file, and nothing else changes.
pub open spec fn overridden(config: FileConfig, legacy: LegacyEnvironment, new: FileConfig) -> bool {
    &&& new.max_verify_retries == first(legacy.max_verify_retries, config.max_verify_retries)
    &&& new.max_output_retries == first(legacy.max_output_retries, config.max_output_retries)
    &&& new.max_provider_retries == first(legacy.max_provider_retries, config.max_provider_retries)
    &&& new.local_worker_timeout_minutes == first(legacy.local_worker_timeout_minutes, config.local_worker_timeout_minutes)
    &&& new.sidecar == config.sidecar
    &&& new.sidecar_root == config.sidecar_root
    &&& new.local_only == config.local_only
    &&& new.yolo == first(legacy.yolo, config.yolo)
    &&& new.loop_workflow == first(legacy.loop_workflow, config.loop_workflow)
    &&& new.max_iterations == first(legacy.max_iterations, config.max_iterations)
    &&& text_option(new.permission_mode) == first(text_option(legacy.permission_mode), text_option(config.permission_mode))
    &&& text_option(new.claude_command) == first(text_option(legacy.claude_command), text_option(config.claude_command))
    &&& text_option(new.claude_model) == first(text_option(legacy.claude_model), text_option(config.claude_model))
    &&& text_option(new.frontier_command) == first(text_option(legacy.frontier_command), text_option(config.frontier_command))
    &&& text_option(new.frontier_model) == first(text_option(legacy.frontier_model), text_option(config.frontier_model))
    &&& text_option(new.worker_connection) == first(text_option(legacy.worker_connection), text_option(config.worker_connection))
    &&& text_option(new.frontier_connection) == first(text_option(legacy.frontier_connection), text_option(config.frontier_connection))
    &&& new.connections == config.connections
    &&& new.environments == config.environments
    &&& new.auto_compact_window == first(legacy.auto_compact_window, config.auto_compact_window)
    &&& new.auto_compact_percent == first(legacy.auto_compact_percent, config.auto_compact_percent)
    &&& new.max_output_tokens == first(legacy.max_output_tokens, config.max_output_tokens)
    &&& text_option(new.explore_command) == first(text_option(legacy.explore_command), text_option(config.explore_command))
    &&& text_option(new.propose_command) == first(text_option(legacy.propose_command), text_option(config.propose_command))
    &&& text_option(new.apply_command) == first(text_option(legacy.apply_command), text_option(config.apply_command))
    &&& text_option(new.verify_command) == first(text_option(legacy.verify_command), text_option(config.verify_command))
    &&& text_option(new.archive_command) == first(text_option(legacy.archive_command), text_option(config.archive_command))
    &&& new.stream_claude == first(legacy_filter(legacy.stream_claude), config.stream_claude)
}

/// Puts the older variables of the environment over the configuration file.
pub fn apply_legacy_environment(config: FileConfig, legacy: &LegacyEnvironment) -> (r: Result<
    FileConfig,
    Failure,
>)
    ensures
        match legacy_stream(legacy.stream_claude) {
            Ok(_) => r matches Ok(new) && overridden(config, *legacy, new),
            Err(message) => failed(r, message),
        },
{
    let stream = match legacy_stream_filter(&legacy.stream_claude) {
        Ok(stream) => stream,
        Err(e) => {
            return Err(e);
        },
    };
    Ok(
        FileConfig {
            max_verify_retries: first_of(legacy.max_verify_retries, config.max_verify_retries),
            max_output_retries: first_of(legacy.max_output_retries, config.max_output_retries),
            max_provider_retries: first_of(legacy.max_provider_retries, config.max_provider_retries),
            local_worker_timeout_minutes: first_of(legacy.local_worker_timeout_minutes, config.local_worker_timeout_minutes),
            sidecar: config.sidecar,
            sidecar_root: config.sidecar_root,
            local_only: config.local_only,
            yolo: first_of(legacy.yolo, config.yolo),
            loop_workflow: first_of(legacy.loop_workflow, config.loop_workflow),
            max_iterations: first_of(legacy.max_iterations, config.max_iterations),
            permission_mode: first_text(&legacy.permission_mode, &config.permission_mode),
            claude_command: first_text(&legacy.claude_command, &config.claude_command),
            claude_model: first_text(&legacy.claude_model, &config.claude_model),
            frontier_command: first_text(&legacy.frontier_command, &config.frontier_command),
            frontier_model: first_text(&legacy.frontier_model, &config.frontier_model),
            worker_connection: first_text(&legacy.worker_connection, &config.worker_connection),
            frontier_connection: first_text(&legacy.frontier_connection, &config.frontier_connection),
            connections: config.connections,
            environments: config.environments,
            auto_compact_window: first_of(legacy.auto_compact_window, config.auto_compact_window),
            auto_compact_percent: first_of(legacy.auto_compact_percent, config.auto_compact_percent),
            max_output_tokens: first_of(legacy.max_output_tokens, config.max_output_tokens),
            explore_command: first_text(&legacy.explore_command, &config.explore_command),
            propose_command: first_text(&legacy.propose_command, &config.propose_command),
            apply_command: first_text(&legacy.apply_command, &config.apply_command),
            verify_command: first_text(&legacy.verify_command, &config.verify_command),
            archive_command: first_text(&legacy.archive_command, &config.archive_command),
            stream_claude: first_of(stream, config.stream_claude),
        },
    )
}

/// Whether a text is made of the ten digits, at least one of them.
pub open spec fn numeral(d: Seq<char>) -> bool {
    d.len() > 0 && forall|i: int| 0 <= i < d.len() ==> '0' <= #[trigger] d[i] && d[i] <= '9'
}

proof fn lemma_numeral_is_token_text(before: Seq<char>, d: Seq<char>, u: Seq<char>, after: Seq<char>)
    requires
        crate::text_laws::blank(before),
        crate::text_laws::blank(after),
        numeral(d),
        u.len() == 0 || (u.len() == 1 && (u[0] == 'k' || u[0] == 'K' || u[0] == 'm' || u[0] == 'M'
            || u[0] == '%')),
    ensures
        token_text(before + (d + u) + after) == d + lowered(u),
        trimmed(before + (d + u) + after) == d + u,
        unsigned_value(d) == Some(crate::numeral::decimal_value(d)),
{
    let s = d + u;
    crate::text_laws::law_what_is_white_space(s[0]);
    crate::text_laws::law_what_is_white_space(s.last());
    crate::text_laws::law_trimming_takes_off_white_space(before, s, after);
    reveal_strlit("_");
    assert forall|i: int| !#[trigger] crate::text::occurs_at(s, "_"@, i) by {
        if crate::text::occurs_at(s, "_"@, i) {
            assert(s.subrange(i, i + 1)[0] == '_');
            assert(s[i] == '_');
        }
    }
    crate::text_laws::law_replacing_touches_nothing_else(s, "_"@, ""@);
    let t = lowered(s);
    assert forall|i: int| 0 <= i < d.len() implies t[i] == d[i] by {
        crate::text_laws::law_lowering_keeps_places(s, i);
    }
    assert(t =~= d + lowered(u));
    assert(crate::numeral::all_digits(d)) by {
        assert forall|i: int| 0 <= i < d.len() implies crate::text::digit(#[trigger] d[i]) by {
        }
    }
}

/// A number of tokens is read by its digits. A `k` behind them, small or capital, stands for
/// 1024 times as many and an `m` for 1024 times 1024. White space around it does not matter.
/// No tokens at all, more than a machine word holds, and percentages are refused.
pub proof fn law_tokens_are_counted(before: Seq<char>, d: Seq<char>, u: Seq<char>, after: Seq<char>)
    requires
        crate::text_laws::blank(before),
        crate::text_laws::blank(after),
        numeral(d),
        u.len() == 0 || (u.len() == 1 && (u[0] == 'k' || u[0] == 'K' || u[0] == 'm' || u[0] == 'M'
            || u[0] == '%')),
    ensures
        ({
            let n = crate::numeral::decimal_value(d) as int;
            let times: int = if u.len() == 0 {
                1
            } else if u[0] == 'k' || u[0] == 'K' {
                1024
            } else {
                1_048_576
            };
            let r = token_count(before + (d + u) + after);
            &&& u.len() == 1 && u[0] == '%' ==> r is Err
            &&& !(u.len() == 1 && u[0] == '%') ==> {
                &&& r is Ok <==> 0 < n * times <= u64::MAX
                &&& r matches Ok(c) ==> c == n * times
            }
        }),
{
    lemma_numeral_is_token_text(before, d, u, after);
    reveal_strlit("k");
    reveal_strlit("m");
    reveal_strlit("%");
    let t = d + lowered(u);
    if u.len() == 1 {
        crate::text_laws::law_lowering_keeps_places(u, 0);
        let l = lowered(u)[0];
        assert(t.last() == l);
        if u[0] == 'k' || u[0] == 'K' {
            assert(l == 'k');
            assert(lowered(u) =~= "k"@);
            crate::text_laws::law_prefixes_and_suffixes_come_off("k"@, d);
        } else if u[0] == 'm' || u[0] == 'M' {
            assert(l == 'm');
            assert(lowered(u) =~= "m"@);
            crate::text_laws::law_prefixes_and_suffixes_come_off("m"@, d);
        } else {
            assert(lowered(u) =~= "%"@);
            crate::text_laws::law_prefixes_and_suffixes_come_off("%"@, d);
        }
    } else {
        assert(t =~= d);
    }
    let last = t.subrange(t.len() - 1, t.len() as int);
    assert(last[0] == t.last());
    let n = crate::numeral::decimal_value(d);
    assert(n * 1024 <= u64::MAX ==> n <= u64::MAX);
    assert(n * 1_048_576 <= u64::MAX ==> n <= u64::MAX);
}

/// A percentage is read by its digits, with or without its sign, and is accepted from one to
/// a hundred.
pub proof fn law_percentages_are_read(before: Seq<char>, d: Seq<char>, u: Seq<char>, after: Seq<char>)
    requires
        crate::text_laws::blank(before),
        crate::text_laws::blank(after),
        numeral(d),
        u.len() == 0 || (u.len() == 1 && u[0] == '%'),
    ensures
        ({
            let n = crate::numeral::decimal_value(d);
            let r = percentage(before + (d + u) + after);
            &&& r is Ok <==> 1 <= n <= 100
            &&& r matches Ok(p) ==> p == n
        }),
{
    lemma_numeral_is_token_text(before, d, u, after);
    reveal_strlit("%");
    if u.len() == 1 {
        assert(u =~= "%"@);
        crate::text_laws::law_prefixes_and_suffixes_come_off("%"@, d);
    } else {
        let t = d + u;
        assert(t =~= d);
        let last = t.subrange(t.len() - 1, t.len() as int);
        assert(last[0] == t.last());
    }
}

/// A list that takes up another holds the items of both and nothing else, its own first and
/// in their order.
pub proof fn law_lists_take_up_what_they_lack(list: Seq<Seq<char>>, more: Seq<Seq<char>>)
    ensures
        list.is_prefix_of(with_missing(list, more)),
        forall|x: Seq<char>|
            #![trigger with_missing(list, more).contains(x)]
            with_missing(list, more).contains(x) <==> list.contains(x) || more.contains(x),
        list.no_duplicates() ==> with_missing(list, more).no_duplicates(),
    decreases more.len(),
{
    let r = with_missing(list, more);
    if more.len() == 0 {
        assert(r.subrange(0, list.len() as int) =~= list);
    } else {
        let so_far = with_missing(list, more.drop_last());
        law_lists_take_up_what_they_lack(list, more.drop_last());
        assert(list.is_prefix_of(r)) by {
            assert(r.subrange(0, list.len() as int) =~= so_far.subrange(0, list.len() as int));
        }
        assert forall|x: Seq<char>|
            #![trigger with_missing(list, more).contains(x)]
            with_missing(list, more).contains(x) <==> list.contains(x) || more.contains(x) by {
            assert(so_far.contains(x) <==> list.contains(x) || more.drop_last().contains(x));
            if more.contains(x) {
                let i = choose|i: int| 0 <= i < more.len() && more[i] == x;
                if i < more.len() - 1 {
                    assert(more.drop_last()[i] == x);
                }
            }
            if more.drop_last().contains(x) {
                let i = choose|i: int| 0 <= i < more.drop_last().len() && more.drop_last()[i] == x;
                assert(more[i] == x);
            }
            if !so_far.contains(more.last()) {
                assert(r[so_far.len() as int] == more.last());
                if so_far.contains(x) {
                    let i = choose|i: int| 0 <= i < so_far.len() && so_far[i] == x;
                    assert(r[i] == x);
                }
                if r.contains(x) {
                    let i = choose|i: int| 0 <= i < r.len() && r[i] == x;
                    if i < so_far.len() {
                        assert(so_far[i] == x);
                    }
                }
            }
            assert(more[more.len() - 1] == more.last());
        }
    }
}

proof fn lemma_put_all(
    table: Seq<(Seq<char>, EnvironmentValueView)>,
    more: Seq<(Seq<char>, EnvironmentValueView)>,
    name: Seq<char>,
)
    requires
        crate::table::well_ordered(table),
    ensures
        crate::table::well_ordered(put_all(table, more)),
        lookup(put_all(table, more), name) == (match lookup(more, name) {
            Some(v) => Some(v),
            None => lookup(table, name),
        }),
    decreases more.len(),
{
    if more.len() > 0 {
        lemma_put_all(table, more.drop_last(), name);
        crate::table::law_put(
            put_all(table, more.drop_last()),
            more.last().0,
            more.last().1,
            name,
        );
    }
}

/// A variable that a connection sets itself has the value of the connection, and one that
/// only its environment profile sets has the value of the profile. No other is set.
pub proof fn law_own_variables_come_first(
    shared: Seq<(Seq<char>, EnvironmentValueView)>,
    own: Seq<(Seq<char>, EnvironmentValueView)>,
    name: Seq<char>,
)
    ensures
        lookup(own, name) is Some ==> lookup(merged_env(shared, own), name) == lookup(own, name),
        lookup(own, name) is None ==> lookup(merged_env(shared, own), name) == lookup(shared, name),
{
    let bare = Seq::<(Seq<char>, EnvironmentValueView)>::empty();
    lemma_put_all(bare, shared, name);
    lemma_put_all(put_all(bare, shared), own, name);
}

/// What a connection is made of: the command line decides, where it is silent the profile,
/// and where that is silent the head of the file. The command is never missing. Only a
/// profile is isolated, and it is unless it or its environment says otherwise.
pub proof fn law_connections_follow_their_settings(
    profile: Option<(Seq<char>, FileConnectionView)>,
    environments: Seq<(Seq<char>, FileEnvironmentView)>,
    line: SettingsView,
    head: SettingsView,
    h: HarnessView,
)
    ensures
        connected(profile, environments, line, head, h) matches Ok(c) ==> {
            &&& c.name == (match profile {
                Some(p) => Some(p.0),
                None => None,
            })
            &&& c.structured_output
            &&& line.command is Some ==> c.command == line.command->0
            &&& line.model is Some ==> c.model == line.model
            &&& line.window is Some ==> c.auto_compact_window == line.window
            &&& line.percentage is Some ==> c.auto_compact_percent == line.percentage
            &&& line.output_tokens is Some ==> c.max_output_tokens == line.output_tokens
            &&& profile is None ==> {
                &&& c.backend == BackendKind::Claude
                &&& !c.isolate
                &&& c.env.len() == 0
                &&& c.unset_env.len() == 0
                &&& c.environment_name is None
                &&& c.permission_profile is None
                &&& c.context_window is None
                &&& line.command is None && head.command is Some ==> c.command == head.command->0
                &&& line.command is None && head.command is None ==> c.command
                    == BackendKind::Claude.command(h)
                &&& line.model is None ==> c.model == head.model
                &&& line.window is None ==> c.auto_compact_window == head.window
                &&& line.percentage is None ==> c.auto_compact_percent == head.percentage
                &&& line.output_tokens is None ==> c.max_output_tokens == head.output_tokens
            }
            &&& profile matches Some(p) ==> {
                &&& c.backend == p.1.backend
                &&& c.permission_profile == p.1.permission_profile
                &&& c.context_window == p.1.context_window
                &&& p.1.permission_profile is Some ==> p.1.backend == BackendKind::Codex
                &&& line.command is None && p.1.command is Some ==> c.command == p.1.command->0
                &&& line.command is None && p.1.command is None && head.command is Some
                    ==> c.command == head.command->0
                &&& line.command is None && p.1.command is None && head.command is None
                    ==> c.command == p.1.backend.command(h)
                &&& line.model is None && p.1.model is Some ==> c.model == p.1.model
                &&& line.model is None && p.1.model is None ==> c.model == head.model
                &&& line.window is None && p.1.auto_compact_window is Some
                    ==> c.auto_compact_window == p.1.auto_compact_window
                &&& line.window is None && p.1.auto_compact_window is None
                    ==> c.auto_compact_window == head.window
                &&& line.percentage is None && p.1.auto_compact_percent is Some
                    ==> c.auto_compact_percent == p.1.auto_compact_percent
                &&& line.percentage is None && p.1.auto_compact_percent is None
                    ==> c.auto_compact_percent == head.percentage
                &&& line.output_tokens is None && p.1.max_output_tokens is Some
                    ==> c.max_output_tokens == p.1.max_output_tokens
                &&& line.output_tokens is None && p.1.max_output_tokens is None
                    ==> c.max_output_tokens == head.output_tokens
                &&& p.1.isolate matches Some(b) ==> c.isolate == b
                &&& p.1.environment is None ==> c.environment_name is None && (p.1.isolate is None
                    ==> c.isolate) && c.env == merged_env(Seq::empty(), p.1.env)
                &&& p.1.environment matches Some(e) ==> {
                    let found = lookup(environments, trimmed(e));
                    &&& found is Some
                    &&& c.environment_name == Some(trimmed(e))
                    &&& c.env == merged_env(found->0.env, p.1.env)
                    &&& c.unset_env == with_missing(found->0.unset_env, p.1.unset_env)
                    &&& p.1.isolate is None && found->0.isolate is Some ==> c.isolate
                        == found->0.isolate->0
                    &&& p.1.isolate is None && found->0.isolate is None ==> c.isolate
                }
            }
        },
{
}

/// The settings of a run: what the command line sets decides, where it is silent the
/// configuration file, and where that is silent the default.
pub proof fn law_settings_have_their_defaults(
    args: CliArgs,
    config: FileConfig,
    defines: Seq<(Seq<char>, Seq<char>)>,
    worker: AgentConnectionView,
    frontier: AgentConnectionView,
    path: Option<Seq<char>>,
)
    ensures
        ({
            let c = assembled(args, config, defines, worker, frontier, path);
            &&& c.max_verify_retries == (match args.max_verify_retries {
                Some(n) => n,
                None => match config.max_verify_retries {
                    Some(n) => n,
                    None => 3,
                },
            })
            &&& c.max_output_retries == (match args.max_output_retries {
                Some(n) => n,
                None => match config.max_output_retries {
                    Some(n) => n,
                    None => 3,
                },
            })
            &&& c.max_provider_retries == (match args.max_provider_retries {
                Some(n) => n,
                None => match config.max_provider_retries {
                    Some(n) => n,
                    None => 3,
                },
            })
            &&& c.local_worker_timeout_minutes == (match args.local_worker_timeout_minutes {
                Some(n) => n,
                None => match config.local_worker_timeout_minutes {
                    Some(n) => n,
                    None => 60,
                },
            })
            &&& c.max_iterations == (match args.max_iterations {
                Some(n) => Some(n),
                None => config.max_iterations,
            })
            &&& c.stream_claude == (match args.stream_claude {
                Some(f) => Some(f),
                None => config.stream_claude,
            })
            &&& c.permission_mode == (match args.permission_mode {
                Some(m) => m@,
                None => match config.permission_mode {
                    Some(m) => m@,
                    None => "auto"@,
                },
            })
            &&& c.sidecar <==> args.sidecar || config.sidecar == Some(true)
            &&& c.local_only <==> args.local_only || config.local_only == Some(true)
            &&& c.yolo <==> !args.no_yolo && (args.yolo || config.yolo == Some(true))
            &&& c.explore_command == (match args.explore_command {
                Some(m) => Some(m@),
                None => text_option(config.explore_command),
            })
            &&& c.propose_command == (match args.propose_command {
                Some(m) => Some(m@),
                None => text_option(config.propose_command),
            })
            &&& c.apply_command == (match args.apply_command {
                Some(m) => Some(m@),
                None => text_option(config.apply_command),
            })
            &&& c.verify_command == (match args.verify_command {
                Some(m) => Some(m@),
                None => text_option(config.verify_command),
            })
            &&& c.archive_command == (match args.archive_command {
                Some(m) => Some(m@),
                None => text_option(config.archive_command),
            })
            &&& c.sidecar_root == (match args.sidecar_root {
                Some(m) => Some(m@),
                None => text_option(config.sidecar_root),
            })
            &&& c.worker_connection == worker
            &&& c.frontier_connection == frontier
            &&& c.bootstrap_defines == defines
            &&& c.config_path == path
        }),
{
}

/// What the command line alone decides is as the command line says.
pub proof fn law_the_command_line_is_followed(
    args: CliArgs,
    config: FileConfig,
    defines: Seq<(Seq<char>, Seq<char>)>,
    worker: AgentConnectionView,
    frontier: AgentConnectionView,
    path: Option<Seq<char>>,
)
    ensures
        ({
            let c = assembled(args, config, defines, worker, frontier, path);
            &&& c.yes == args.yes
            &&& c.repo == args.repo@
            &&& c.interactive == args.interactive
            &&& c.test_connection == text_option(args.test_connection)
            &&& c.basic_connection_test == args.basic_connection_test
            &&& c.update_skills == args.update_skills
            &&& c.resume == args.resume
            &&& c.forget == args.forget
            &&& c.continue_existing == args.continue_existing
            &&& c.no_loop == args.no_loop
            &&& c.change == text_option(args.change)
            &&& c.direction == text_option(args.direction)
            &&& c.interactive_args == texts(args.interactive_args@)
            &&& c.verbose == args.verbose
            &&& c.debug == args.debug
            &&& c.dry_run == args.dry_run
            &&& c.bootstrap_context == text_option(args.context)
        }),
{
}

/// What is asked for is what the command line says. A run that is told to execute advances in
/// a loop, one that is told to rewind goes back to the target that is named or to the end of
/// the bootstrap, and one that is told nothing advances, unless it is asked for something
/// that needs no request.
pub proof fn law_requests_are_understood(
    args: CliArgs,
    config: FileConfig,
    defines: Seq<(Seq<char>, Seq<char>)>,
    worker: AgentConnectionView,
    frontier: AgentConnectionView,
    path: Option<Seq<char>>,
)
    ensures
        ({
            let c = assembled(args, config, defines, worker, frontier, path);
            let idle = args.interactive || args.test_connection is Some || args.update_skills
                || args.resume || args.forget || args.continue_existing;
            &&& args.request matches Some(r) ==> {
                &&& r@ == "execute"@ ==> c.execute && c.request == "advance"@
                &&& r@ != "execute"@ ==> !c.execute
                &&& r@ != "execute"@ && lowered(trimmed(r@)) != "next slice"@ ==> c.request == r@
                &&& r@ != "execute"@ && lowered(trimmed(r@)) == "next slice"@ ==> c.request
                    == "advance"@
                &&& r@ == "rewind"@ ==> c.rewind_target == (match args.rewind_target {
                    Some(t) => Some(t@),
                    None => Some("post-bootstrap"@),
                })
            }
            &&& args.request is None ==> !c.execute && c.request == (if idle {
                ""@
            } else {
                "advance"@
            })
            &&& c.rewind_target is Some <==> args.rewind_target is Some || c.request == "rewind"@
            &&& c.loop_workflow <==> !args.no_loop && (c.execute || args.loop_workflow
                || config.loop_workflow == Some(true))
        }),
{
    reveal_strlit("execute");
    reveal_strlit("advance");
    reveal_strlit("rewind");
    reveal_strlit("next slice");
    reveal_strlit("");
    assert("execute"@.len() == 7 && "next slice"@.len() == 10 && "rewind"@.len() == 6);
    assert("advance"@[0] == 'a' && "execute"@[0] == 'e');
    assert(""@.len() == 0);
    if args.request is Some && args.request->0@ == "execute"@ {
        let e = "execute"@;
        let none = Seq::<char>::empty();
        crate::text_laws::law_what_is_white_space(e[0]);
        crate::text_laws::law_what_is_white_space(e.last());
        crate::text_laws::law_trimming_takes_off_white_space(none, e, none);
        assert(none + e + none =~= e);
        assert(lowered(e).len() == e.len());
    }
    if args.request is Some && args.request->0@ == "rewind"@ {
        let e = "rewind"@;
        let none = Seq::<char>::empty();
        crate::text_laws::law_what_is_white_space(e[0]);
        crate::text_laws::law_what_is_white_space(e.last());
        crate::text_laws::law_trimming_takes_off_white_space(none, e, none);
        assert(none + e + none =~= e);
        assert(lowered(e).len() == e.len());
    }
}

/// A definition names a variable before its first equals sign and its value behind it. It
/// joins those before it where the name is well formed and new, and is refused otherwise.
pub proof fn law_definitions_are_read(
    values: Seq<Seq<char>>,
    name: Seq<char>,
    value: Seq<char>,
)
    requires
        defined(values) is Ok,
        forall|i: int| 0 <= i < name.len() ==> #[trigger] name[i] != '=',
    ensures
        ({
            let r = defined(values.push(name + seq!['='] + value));
            let fresh = lookup(defined(values)->Ok_0, name) is None;
            &&& r is Ok <==> template_name(name) && fresh
            &&& r matches Ok(table) ==> table == put(defined(values)->Ok_0, name, value)
        }),
        ({
            let r = defined(values.push(name));
            r is Err
        }),
        defined(Seq::empty()) == Ok::<_, Seq<char>>(Seq::<(Seq<char>, Seq<char>)>::empty()),
{
    let line = name + seq!['='] + value;
    let all = values.push(line);
    assert(all.drop_last() =~= values);
    assert(values.push(name).drop_last() =~= values);
    lemma_cut_behind(name, line, 0);
    assert(line.take(name.len() as int) =~= name);
    assert(line.skip(name.len() as int + 1) =~= value);
    lemma_cut_behind(name, name, 0);
}

proof fn lemma_cut_behind(name: Seq<char>, s: Seq<char>, pos: int)
    requires
        0 <= pos <= name.len(),
        name.len() <= s.len(),
        forall|i: int| 0 <= i < name.len() ==> #[trigger] name[i] != '=' && s[i] == name[i],
        name.len() < s.len() ==> s[name.len() as int] == '=',
    ensures
        crate::text::char_at(s, '=', pos) == name.len(),
    decreases name.len() - pos,
{
    if pos < name.len() {
        assert(name[pos] != '=');
        lemma_cut_behind(name, s, pos + 1);
    }
}

/// A variable has a name of letters, digits and underscores that does not begin with a digit.
pub proof fn law_what_a_variable_may_be_called(name: Seq<char>)
    ensures
        template_name(name) <==> name.len() > 0 && !('0' <= name[0] && name[0] <= '9') && (forall|
            i: int,
        |
            0 <= i < name.len() ==> (#[trigger] name[i] == '_' || ('a' <= name[i] && name[i] <= 'z')
                || ('A' <= name[i] && name[i] <= 'Z') || ('0' <= name[i] && name[i] <= '9'))),
{
}

/// A profile is found by its name, white space around which does not matter. A name that
/// stands for none is refused, and no name selects none.
pub proof fn law_profiles_are_found_by_name(
    name: Seq<char>,
    connections: Seq<(Seq<char>, FileConnectionView)>,
    environments: Seq<(Seq<char>, FileEnvironmentView)>,
    of: Option<Seq<char>>,
)
    ensures
        selected(None, connections) == Ok::<_, Seq<char>>(
            None::<(Seq<char>, FileConnectionView)>,
        ),
        selected(Some(name), connections) is Ok <==> trimmed(name).len() > 0 && lookup(
            connections,
            trimmed(name),
        ) is Some,
        selected(Some(name), connections) matches Ok(p) ==> p == Some(
            (trimmed(name), lookup(connections, trimmed(name))->0),
        ),
        environment_of(None, environments, of) matches Ok(e) && e.0 is None && e.1.env.len() == 0
            && e.1.isolate is None && e.1.unset_env.len() == 0,
        environment_of(Some(name), environments, of) is Ok <==> trimmed(name).len() > 0 && lookup(
            environments,
            trimmed(name),
        ) is Some,
        environment_of(Some(name), environments, of) matches Ok(e) ==> e == (
            Some(trimmed(name)),
            lookup(environments, trimmed(name))->0,
        ),
{
}

/// Settings that break none of the rules are accepted. A rewind goes alone and is the only
/// thing that is confirmed, a limit needs a loop, a context and definitions need something
/// to bootstrap, a name needs a request of its own and no loop, a bootstrap and an execution
/// go alone, and a sidecar runs one named change.
pub proof fn law_settings_that_go_together(c: CliView, request_supplied: bool, limit_supplied: bool)
    ensures
        conflict(c, request_supplied, limit_supplied) is None <==> {
            let rewind = c.request == "rewind"@;
            let bootstrap = c.request == "bootstrap"@;
            let upkeep = c.resume || c.forget || c.update_skills;
            let alone = !c.interactive && c.test_connection is None && !upkeep
                && !c.continue_existing && c.change is None && c.direction is None;
            &&& !rewind ==> c.rewind_target is None && !c.yes
            &&& rewind ==> alone && c.bootstrap_context is None && c.bootstrap_defines.len() == 0
            &&& limit_supplied ==> c.loop_workflow
            &&& !(c.loop_workflow && c.continue_existing)
            &&& c.bootstrap_context is Some ==> bootstrap || c.execute || c.sidecar
            &&& c.bootstrap_defines.len() > 0 ==> bootstrap || c.execute
            &&& c.change is Some && !c.continue_existing ==> request_supplied && c.request
                != "advance"@ && !c.loop_workflow
            &&& bootstrap ==> alone && !c.loop_workflow && !c.no_loop && c.max_iterations is None
                && !c.sidecar && !c.local_only
            &&& c.execute ==> alone && !c.no_loop && !c.sidecar && !c.local_only
            &&& c.sidecar ==> !c.loop_workflow && !c.continue_existing
            &&& c.sidecar && !upkeep ==> c.request != "advance"@ && c.request != ""@
                && c.change is Some
        },
{
}

/// The configuration file is in the directory that the desktop names, else under the home
/// directory. The older place counts only where it alone has a file.
pub proof fn law_where_the_configuration_is(
    desktop: Option<Seq<char>>,
    home: Option<Seq<char>>,
    root: Seq<char>,
    canonical: bool,
    legacy: bool,
)
    ensures
        desktop matches Some(d) ==> (d.len() > 0 ==> config_root(desktop, home) == Some(d)),
        !(desktop is Some && desktop->0.len() > 0) ==> (home matches Some(d) ==> (d.len() > 0
            ==> config_root(desktop, home) == Some(joined_path(d, ".config"@)))),
        config_root(desktop, home) is Some <==> (desktop is Some && desktop->0.len() > 0) || (
        home is Some && home->0.len() > 0),
        user_config(root, true, legacy) == joined_path(root, "opsx-build/config.toml"@),
        user_config(root, canonical, false) == joined_path(root, "opsx-build/config.toml"@),
        user_config(root, false, true) == joined_path(root, "ospx-build/config.toml"@),
{
}

/// The three filters are named by their words, and no other word names one.
pub proof fn law_filters_are_named(word: Seq<char>)
    ensures
        filter_named(word) == Some(StreamFilter::Activity) <==> word == "activity"@,
        filter_named(word) == Some(StreamFilter::Full) <==> word == "full"@,
        filter_named(word) == Some(StreamFilter::Raw) <==> word == "raw"@,
{
    reveal_strlit("activity");
    reveal_strlit("full");
    reveal_strlit("raw");
    assert("activity"@.len() != "full"@.len());
    assert("raw"@.len() != "full"@.len());
}

/// An older variable that is set replaces the setting of the file, and one that is not leaves
/// it as it is. What no variable stands for is never touched.
pub proof fn law_older_variables_replace_settings(
    config: FileConfig,
    legacy: LegacyEnvironment,
    new: FileConfig,
)
    requires
        overridden(config, legacy, new),
    ensures
        new.max_verify_retries == (if legacy.max_verify_retries is Some {
            legacy.max_verify_retries
        } else {
            config.max_verify_retries
        }),
        new.max_output_retries == (if legacy.max_output_retries is Some {
            legacy.max_output_retries
        } else {
            config.max_output_retries
        }),
        new.max_provider_retries == (if legacy.max_provider_retries is Some {
            legacy.max_provider_retries
        } else {
            config.max_provider_retries
        }),
        new.local_worker_timeout_minutes == (if legacy.local_worker_timeout_minutes is Some {
            legacy.local_worker_timeout_minutes
        } else {
            config.local_worker_timeout_minutes
        }),
        new.yolo == (if legacy.yolo is Some {
            legacy.yolo
        } else {
            config.yolo
        }),
        new.loop_workflow == (if legacy.loop_workflow is Some {
            legacy.loop_workflow
        } else {
            config.loop_workflow
        }),
        new.max_iterations == (if legacy.max_iterations is Some {
            legacy.max_iterations
        } else {
            config.max_iterations
        }),
        new.auto_compact_window == (if legacy.auto_compact_window is Some {
            legacy.auto_compact_window
        } else {
            config.auto_compact_window
        }),
        new.auto_compact_percent == (if legacy.auto_compact_percent is Some {
            legacy.auto_compact_percent
        } else {
            config.auto_compact_percent
        }),
        new.max_output_tokens == (if legacy.max_output_tokens is Some {
            legacy.max_output_tokens
        } else {
            config.max_output_tokens
        }),
        text_option(new.permission_mode) == text_option(
            if legacy.permission_mode is Some {
                legacy.permission_mode
            } else {
                config.permission_mode
            },
        ),
        text_option(new.claude_command) == text_option(
            if legacy.claude_command is Some {
                legacy.claude_command
            } else {
                config.claude_command
            },
        ),
        text_option(new.claude_model) == text_option(
            if legacy.claude_model is Some {
                legacy.claude_model
            } else {
                config.claude_model
            },
        ),
        text_option(new.frontier_command) == text_option(
            if legacy.frontier_command is Some {
                legacy.frontier_command
            } else {
                config.frontier_command
            },
        ),
        text_option(new.frontier_model) == text_option(
            if legacy.frontier_model is Some {
                legacy.frontier_model
            } else {
                config.frontier_model
            },
        ),
        text_option(new.worker_connection) == text_option(
            if legacy.worker_connection is Some {
                legacy.worker_connection
            } else {
                config.worker_connection
            },
        ),
        text_option(new.frontier_connection) == text_option(
            if legacy.frontier_connection is Some {
                legacy.frontier_connection
            } else {
                config.frontier_connection
            },
        ),
        new.sidecar == config.sidecar,
        new.sidecar_root == config.sidecar_root,
        new.local_only == config.local_only,
        new.connections == config.connections,
        new.environments == config.environments,
        legacy.stream_claude is None ==> new.stream_claude == config.stream_claude,
        legacy.stream_claude matches Some(w) ==> {
            &&& w@ == "activity"@ ==> new.stream_claude == Some(StreamFilter::Activity)
            &&& w@ == "full"@ ==> new.stream_claude == Some(StreamFilter::Full)
            &&& w@ == "raw"@ ==> new.stream_claude == Some(StreamFilter::Raw)
        },
{
    if legacy.stream_claude is Some {
        law_filters_are_named(legacy.stream_claude->0@);
    }
}

} // verus!
