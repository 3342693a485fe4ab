//! The second harness: how its server is started, what a conversation and a turn of it are
//! asked with, and how its reports are read.
use crate::claude_agent::shown_name;
use crate::cli::{add_missing, with_missing, AgentConnection, BackendKind};
use crate::codex_home::{isolated, HomeView, IsolatedCodexHome};
use crate::failure::{fail, fail_with, failed, outcome, Failure};
use crate::json::{
    as_text, as_unsigned, get_in, item_trees, json_literal, member, member_of, member_trees,
    number_json, push_item, push_member, quote_json, target, text_in, text_items, text_json,
    texts_json, unsigned_in, Json, JsonTree,
};
use crate::launch::{
    command_words, given, in_environment, resolve_environment, split_command, with_environment,
    LauncherEnvironment, VariableView,
};
use crate::names::{Harness, HarnessView};
use crate::numeral::{decimal, decimal_text};
use crate::path::{join_path, joined_path};
use crate::process::{bare_command, CommandSpec, CommandView};
use crate::table::{find_entry, lookup, named};
use crate::text::{
    after_prefix, after_word, cat2, cat4, cat5, cat7, chars_of, copy_all, copy_option, equal, holds,
    lemma_skip_bounds, push_text, replace, replaced, seen, seen_all, skip_word, str_option,
    string_of, strip_prefix, text_option, texts, trim_start, trimmed_start,
};
use vstd::prelude::*;
use vstd::string::*;

verus! {

/// How the harness is started.
#[derive(Debug, Clone, PartialEq, Eq)]
pub struct CodexLauncher {
    pub connection_name: Option<String>,
    pub environment_name: Option<String>,
    pub program: String,
    pub prefix_args: Vec<String>,
    pub model: Option<String>,
    pub permission_profile: Option<String>,
    pub structured_output: bool,
    pub context_window: Option<u64>,
    pub auto_compact_window: Option<u64>,
    pub auto_compact_percent: Option<u8>,
    pub max_output_tokens: Option<u64>,
    pub environment: Vec<LauncherEnvironment>,
    pub unset_environment: Vec<String>,
    pub isolated_home: Option<IsolatedCodexHome>,
    /// What the default harness is called, whose permission modes this one is given.
    pub harness: Harness,
}

pub struct CodexView {
    pub connection_name: Option<Seq<char>>,
    pub environment_name: Option<Seq<char>>,
    pub program: Seq<char>,
    pub prefix_args: Seq<Seq<char>>,
    pub model: Option<Seq<char>>,
    pub permission_profile: Option<Seq<char>>,
    pub structured_output: bool,
    pub context_window: Option<u64>,
    pub auto_compact_window: Option<u64>,
    pub auto_compact_percent: Option<u8>,
    pub max_output_tokens: Option<u64>,
    pub environment: Seq<VariableView>,
    pub unset_environment: Seq<Seq<char>>,
    pub isolated_home: Option<HomeView>,
    pub harness: HarnessView,
}

impl View for CodexLauncher {
    type V = CodexView;

    open spec fn view(&self) -> CodexView {
        CodexView {
            connection_name: text_option(self.connection_name),
            environment_name: text_option(self.environment_name),
            program: self.program@,
            prefix_args: texts(self.prefix_args@),
            model: text_option(self.model),
            permission_profile: text_option(self.permission_profile),
            structured_output: self.structured_output,
            context_window: self.context_window,
            auto_compact_window: self.auto_compact_window,
            auto_compact_percent: self.auto_compact_percent,
            max_output_tokens: self.max_output_tokens,
            environment: seen_all(self.environment@),
            unset_environment: texts(self.unset_environment@),
            isolated_home: seen(self.isolated_home),
            harness: self.harness@,
        }
    }
}

pub const COMMAND: &'static str = "Codex connection command";

/// Whether a variable of a name is among those that an agent is given.
pub open spec fn gives(variables: Seq<VariableView>, name: Seq<char>) -> bool {
    exists|i: int| 0 <= i < variables.len() && (#[trigger] variables[i]).name == name
}

/// Whether the user names the state directory: among the variables of the connection, or in
/// the surrounding environment unless the connection hides it.
pub open spec fn names_home(
    variables: Seq<VariableView>,
    unset: Seq<Seq<char>>,
    surrounding: Seq<(Seq<char>, Seq<char>)>,
) -> bool {
    gives(variables, "CODEX_HOME"@) || (!unset.contains("CODEX_HOME"@) && lookup(
        surrounding,
        "CODEX_HOME"@,
    ) is Some)
}

/// The launcher of a connection, in the surrounding environment.
pub open spec fn codex_launcher(
    c: AgentConnection,
    surrounding: Seq<(Seq<char>, Seq<char>)>,
    home: Option<Seq<char>>,
    h: HarnessView,
) -> Result<CodexView, Seq<char>> {
    let shown = shown_name(text_option(c.name));
    if c.backend != BackendKind::Codex {
        Err(
            "connection profile `"@ + shown + "` selects "@ + c.backend.command(h) + " rather than the Codex backend"@,
        )
    } else {
        match command_words(c.command@, COMMAND@) {
            Err(message) => Err(message),
            Ok(words) => if words.len() == 0 {
                Err(COMMAND@ + " cannot be empty"@)
            } else {
                match given(named(c.env@), texts(c.unset_env@), surrounding, "Codex"@, shown) {
                    Err(message) => Err(message),
                    Ok(found) => if !names_home(found.1, found.0, surrounding) && home is None {
                        Err("cannot locate home directory for isolated Codex state"@)
                    } else {
                        Ok(
                            CodexView {
                                connection_name: text_option(c.name),
                                environment_name: text_option(c.environment_name),
                                program: words[0],
                                prefix_args: words.skip(1),
                                model: text_option(c.model),
                                permission_profile: text_option(c.permission_profile),
                                structured_output: c.structured_output,
                                context_window: c.context_window,
                                auto_compact_window: c.auto_compact_window,
                                auto_compact_percent: c.auto_compact_percent,
                                max_output_tokens: c.max_output_tokens,
                                environment: found.1,
                                unset_environment: found.0,
                                isolated_home: if names_home(found.1, found.0, surrounding) {
                                    None
                                } else {
                                    Some(isolated(joined_path(home->0, ".codex"@)))
                                },
                                harness: h,
                            },
                        )
                    },
                }
            },
        }
    }
}

fn given_variable(variables: &Vec<LauncherEnvironment>, name: &str) -> (r: bool)
    ensures
        r == gives(seen_all(variables@), name@),
{
    let mut i: usize = 0;
    while i < variables.len()
        invariant
            i <= variables@.len(),
            forall|k: int| 0 <= k < i ==> (#[trigger] seen_all(variables@)[k]).name != name@,
        decreases variables@.len() - i,
    {
        assert(seen_all(variables@)[i as int] == variables@[i as int]@);
        if equal(variables[i].name.as_str(), name) {
            return true;
        }
        i += 1;
    }
    false
}

/// A text as a TOML string, with its quotes.
pub uninterp spec fn toml_literal(text: Seq<char>) -> Seq<char>;

/// The `Display` of a `toml::Value::String`, named by [`toml_literal`]: a function of the
/// text alone.
#[verifier::external_body]
fn quote_toml(text: &str) -> (r: String)
    ensures
        r@ == toml_literal(text@),
{
    toml::Value::String(text.to_owned()).to_string()
}

/// The command of the harness's server. One with a state directory of its own is told so
/// both by its options and by its environment.
pub open spec fn server(l: CodexView, repo: Seq<char>) -> CommandView {
    let bare = bare_command(l.program, repo);
    let options = match l.isolated_home {
        Some(home) => seq![
            "-c"@,
            "sqlite_home="@ + toml_literal(home.path),
            "-c"@,
            "log_dir="@ + toml_literal(joined_path(home.path, "log"@)),
        ],
        None => Seq::empty(),
    };
    let c = in_environment(
        CommandView {
            args: l.prefix_args + options + seq!["app-server"@, "--listen"@, "stdio://"@],
            ..bare
        },
        l.unset_environment,
        l.environment,
    );
    match l.isolated_home {
        Some(home) => CommandView {
            env: c.env.push(("CODEX_HOME"@, home.path)),
            env_remove: c.env_remove.push("CODEX_SQLITE_HOME"@),
            ..c
        },
        None => c,
    }
}

/// What a permission mode asks of the harness: when it asks for approval, who approves, and
/// what it may touch.
pub open spec fn permissions(mode: Seq<char>) -> Option<(Seq<char>, Seq<char>, Seq<char>)> {
    if mode == "auto"@ || mode == "acceptEdits"@ || mode == "default"@ {
        Some(("on-request"@, "auto_review"@, "workspace-write"@))
    } else if mode == "dontAsk"@ {
        Some(("never"@, "user"@, "workspace-write"@))
    } else if mode == "plan"@ {
        Some(("never"@, "user"@, "read-only"@))
    } else if mode == "bypassPermissions"@ {
        Some(("never"@, "user"@, "danger-full-access"@))
    } else {
        None
    }
}

/// What is said of a permission mode that the harness does not have.
pub open spec fn no_permissions(mode: Seq<char>, h: HarnessView) -> Seq<char> {
    h.title + " permission mode `"@ + mode
        + "` has no Codex mapping; use auto, acceptEdits, default, dontAsk, plan, or bypassPermissions"@
}

fn no_permissions_text(mode: &str, harness: &Harness) -> (r: String)
    ensures
        r@ == no_permissions(mode@, harness@),
{
    cat4(
        harness.title.as_str(),
        " permission mode `",
        mode,
        "` has no Codex mapping; use auto, acceptEdits, default, dontAsk, plan, or bypassPermissions",
    )
}

pub fn codex_permissions(permission_mode: &str, harness: &Harness) -> (r: Result<
    (&'static str, &'static str, &'static str),
    Failure,
>)
    ensures
        match permissions(permission_mode@) {
            Some(p) => r matches Ok(q) && (q.0@, q.1@, q.2@) == p,
            None => failed(r, no_permissions(permission_mode@, harness@)),
        },
{
    if equal(permission_mode, "auto") || equal(permission_mode, "acceptEdits") || equal(
        permission_mode,
        "default",
    ) {
        Ok(("on-request", "auto_review", "workspace-write"))
    } else if equal(permission_mode, "dontAsk") {
        Ok(("never", "user", "workspace-write"))
    } else if equal(permission_mode, "plan") {
        Ok(("never", "user", "read-only"))
    } else if equal(permission_mode, "bypassPermissions") {
        Ok(("never", "user", "danger-full-access"))
    } else {
        fail(no_permissions_text(permission_mode, harness))
    }
}

/// Only the mode that says so lets the harness touch everything, and planning touches
/// nothing.
pub proof fn law_permissions_are_conservative(mode: Seq<char>)
    ensures
        permissions(mode) matches Some(p) ==> {
            &&& p.2 == "danger-full-access"@ ==> mode == "bypassPermissions"@
            &&& mode == "plan"@ ==> p.2 == "read-only"@
            &&& p.0 == "on-request"@ ==> p.1 == "auto_review"@
        },
{
    reveal_strlit("danger-full-access");
    reveal_strlit("workspace-write");
    reveal_strlit("read-only");
    reveal_strlit("on-request");
    reveal_strlit("never");
    reveal_strlit("plan");
    reveal_strlit("auto");
    reveal_strlit("acceptEdits");
    reveal_strlit("default");
    reveal_strlit("dontAsk");
    reveal_strlit("bypassPermissions");
    assert("workspace-write"@.len() != "danger-full-access"@.len());
    assert("read-only"@.len() != "danger-full-access"@.len());
    assert("on-request"@.len() != "never"@.len());
    assert("plan"@[0] != "auto"@[0]);
    assert("plan"@.len() != "acceptEdits"@.len());
    assert("plan"@.len() != "default"@.len());
    assert("plan"@.len() != "dontAsk"@.len());
    assert("plan"@.len() != "bypassPermissions"@.len());
}

/// Whether a named profile of permissions is used in place of the built-in ones.
pub open spec fn profile_used(l: CodexView, mode: Seq<char>) -> bool {
    l.permission_profile is Some && (mode == "auto"@ || mode == "acceptEdits"@ || mode
        == "default"@ || mode == "dontAsk"@)
}

/// How many tokens a conversation may have before it is compacted.
pub open spec fn compact_at(l: CodexView) -> Option<u64> {
    match l.auto_compact_window {
        Some(window) => Some(window),
        None => match (l.context_window, l.auto_compact_percent) {
            (Some(window), Some(percent)) => Some(
                (if window * percent > u64::MAX {
                    u64::MAX as int
                } else {
                    window * percent
                } / 100) as u64,
            ),
            _ => None,
        },
    }
}

/// The directories that a conversation works in.
pub open spec fn workspace(repo: Seq<char>, additional: Seq<Seq<char>>) -> Seq<Seq<char>> {
    with_missing(seq![repo], additional)
}

fn workspace_roots(repo: &str, additional: &Vec<String>) -> (r: Vec<String>)
    ensures
        texts(r@) == workspace(repo@, texts(additional@)),
{
    let mut roots: Vec<String> = Vec::new();
    push_text(&mut roots, repo);
    assert(texts(roots@) =~= seq![repo@]);
    add_missing(&mut roots, additional);
    roots
}

/// The settings of a conversation, as members.
pub open spec fn thread_config(l: CodexView, mode: Seq<char>) -> Seq<(Seq<char>, JsonTree)> {
    (if profile_used(l, mode) {
        seq![("default_permissions"@, JsonTree::Text(l.permission_profile->0))]
    } else {
        Seq::empty()
    }) + match compact_at(l) {
        Some(limit) => seq![
            ("model_auto_compact_token_limit"@, JsonTree::Number(decimal(limit as nat))),
        ],
        None => Seq::empty(),
    }
}

/// What a conversation is started or resumed with, as members.
pub open spec fn thread_members(
    l: CodexView,
    repo: Seq<char>,
    mode: Seq<char>,
    additional: Seq<Seq<char>>,
    p: (Seq<char>, Seq<char>, Seq<char>),
) -> Seq<(Seq<char>, JsonTree)> {
    seq![
        ("cwd"@, JsonTree::Text(repo)),
        ("approvalPolicy"@, JsonTree::Text(p.0)),
        ("approvalsReviewer"@, JsonTree::Text(p.1)),
        ("runtimeWorkspaceRoots"@, JsonTree::Array(text_items(workspace(repo, additional)))),
    ] + if profile_used(l, mode) {
        Seq::empty()
    } else {
        seq![("sandbox"@, JsonTree::Text(p.2))]
    } + match l.model {
        Some(model) => seq![("model"@, JsonTree::Text(model))],
        None => Seq::empty(),
    } + if thread_config(l, mode).len() > 0 {
        seq![("config"@, JsonTree::Object(thread_config(l, mode)))]
    } else {
        Seq::empty()
    }
}

/// What a turn may touch, where no named profile says so.
pub open spec fn sandbox_policy(
    l: CodexView,
    repo: Seq<char>,
    mode: Seq<char>,
    additional: Seq<Seq<char>>,
) -> Result<Option<JsonTree>, Seq<char>> {
    if profile_used(l, mode) {
        Ok(None)
    } else {
        match permissions(mode) {
            None => Err(no_permissions(mode, l.harness)),
            Some(p) => Ok(
                Some(
                    JsonTree::Object(
                        if p.2 == "read-only"@ {
                            seq![
                                ("type"@, JsonTree::Text("readOnly"@)),
                                ("networkAccess"@, JsonTree::Bool(false)),
                            ]
                        } else if p.2 == "danger-full-access"@ {
                            seq![("type"@, JsonTree::Text("dangerFullAccess"@))]
                        } else {
                            seq![
                                ("type"@, JsonTree::Text("workspaceWrite"@)),
                                (
                                    "writableRoots"@,
                                    JsonTree::Array(text_items(workspace(repo, additional))),
                                ),
                                ("networkAccess"@, JsonTree::Bool(false)),
                            ]
                        },
                    ),
                ),
            ),
        }
    }
}

impl CodexLauncher {
    /// The launcher of a connection. `surrounding` holds the variables that are set, and
    /// `home` is the home directory, if there is one.
    pub fn from_connection(
        connection: &AgentConnection,
        surrounding: &Vec<(String, String)>,
        home: Option<&str>,
        harness: &Harness,
    ) -> (r: Result<CodexLauncher, Failure>)
        ensures
            outcome(r) == codex_launcher(
                *connection,
                named(surrounding@),
                str_option(home),
                harness@,
            ),
    {
        let profile = match &connection.name {
            Some(name) => name.as_str(),
            None => "unnamed",
        };
        if connection.backend != BackendKind::Codex {
            return fail(
                cat5(
                    "connection profile `",
                    profile,
                    "` selects ",
                    connection.backend.default_command(harness),
                    " rather than the Codex backend",
                ),
            );
        }
        let mut words = match split_command(connection.command.as_str(), COMMAND) {
            Ok(words) => words,
            Err(e) => {
                return Err(e);
            },
        };
        if words.len() == 0 {
            return fail(cat2(COMMAND, " cannot be empty"));
        }
        let (unset, variables) = match resolve_environment(
            &connection.env,
            copy_all(&connection.unset_env),
            surrounding,
            "Codex",
            profile,
        ) {
            Ok(found) => found,
            Err(e) => {
                return Err(e);
            },
        };
        let explicit = given_variable(&variables, "CODEX_HOME") || (!holds(&unset, "CODEX_HOME")
            && find_entry(surrounding, "CODEX_HOME").is_some());
        let isolated_home = if explicit {
            None
        } else {
            match home {
                Some(home) => {
                    let source = join_path(home, ".codex");
                    Some(IsolatedCodexHome::new(source.as_str()))
                },
                None => {
                    return fail_with("cannot locate home directory for isolated Codex state");
                },
            }
        };
        let ghost all = texts(words@);
        let program = words.remove(0);
        assert(texts(words@) =~= all.skip(1));
        Ok(
            CodexLauncher {
                connection_name: copy_option(&connection.name),
                environment_name: copy_option(&connection.environment_name),
                program,
                prefix_args: words,
                model: copy_option(&connection.model),
                permission_profile: copy_option(&connection.permission_profile),
                structured_output: connection.structured_output,
                context_window: connection.context_window,
                auto_compact_window: connection.auto_compact_window,
                auto_compact_percent: connection.auto_compact_percent,
                max_output_tokens: connection.max_output_tokens,
                environment: variables,
                unset_environment: unset,
                isolated_home,
                harness: harness.copy(),
            },
        )
    }

    pub fn server_command(&self, repo: &str) -> (r: CommandSpec)
        ensures
            r@ == server(self@, repo@),
    {
        let mut spec = CommandSpec::new(self.program.as_str(), repo).args(&self.prefix_args);
        if let Some(home) = &self.isolated_home {
            let log = join_path(home.path.as_str(), "log");
            let state = quote_toml(home.path.as_str());
            let logs = quote_toml(log.as_str());
            spec = spec.arg("-c").arg(cat2("sqlite_home=", state.as_str()).as_str()).arg("-c").arg(
                cat2("log_dir=", logs.as_str()).as_str(),
            );
        }
        spec = spec.arg("app-server").arg("--listen").arg("stdio://");
        proof {
            let l = self@;
            let options = match l.isolated_home {
                Some(home) => seq![
                    "-c"@,
                    "sqlite_home="@ + toml_literal(home.path),
                    "-c"@,
                    "log_dir="@ + toml_literal(joined_path(home.path, "log"@)),
                ],
                None => Seq::empty(),
            };
            assert(spec@.args =~= l.prefix_args + options + seq![
                "app-server"@,
                "--listen"@,
                "stdio://"@,
            ]);
        }
        spec = with_environment(spec, &self.unset_environment, &self.environment);
        if let Some(home) = &self.isolated_home {
            spec = spec.env("CODEX_HOME", home.path.as_str()).remove_env("CODEX_SQLITE_HOME");
        }
        spec
    }

    pub fn uses_permission_profile(&self, permission_mode: &str) -> (r: bool)
        ensures
            r == profile_used(self@, permission_mode@),
    {
        self.permission_profile.is_some() && (equal(permission_mode, "auto") || equal(
            permission_mode,
            "acceptEdits",
        ) || equal(permission_mode, "default") || equal(permission_mode, "dontAsk"))
    }

    pub fn compaction_limit(&self) -> (r: Option<u64>)
        ensures
            r == compact_at(self@),
    {
        if let Some(window) = self.auto_compact_window {
            return Some(window);
        }
        match (self.context_window, self.auto_compact_percent) {
            (Some(window), Some(percent)) => {
                let total = match window.checked_mul(percent as u64) {
                    Some(total) => total,
                    None => u64::MAX,
                };
                Some(total / 100)
            },
            _ => None,
        }
    }

    /// What a conversation is started or resumed with, without what is particular to
    /// either.
    pub fn thread_params(
        &self,
        repo: &str,
        permission_mode: &str,
        additional_roots: &Vec<String>,
    ) -> (r: Result<Vec<(String, Json)>, Failure>)
        ensures
            match permissions(permission_mode@) {
                Some(p) => r matches Ok(members) && member_trees(members@) == thread_members(
                    self@,
                    repo@,
                    permission_mode@,
                    texts(additional_roots@),
                    p,
                ),
                None => failed(r, no_permissions(permission_mode@, self@.harness)),
            },
    {
        let (approval, reviewer, sandbox) = match codex_permissions(permission_mode, &self.harness) {
            Ok(found) => found,
            Err(e) => {
                return Err(e);
            },
        };
        let roots = workspace_roots(repo, additional_roots);
        let mut params: Vec<(String, Json)> = Vec::new();
        push_member(&mut params, "cwd", text_json(repo));
        push_member(&mut params, "approvalPolicy", text_json(approval));
        push_member(&mut params, "approvalsReviewer", text_json(reviewer));
        push_member(&mut params, "runtimeWorkspaceRoots", texts_json(&roots));
        let profile = self.uses_permission_profile(permission_mode);
        if !profile {
            push_member(&mut params, "sandbox", text_json(sandbox));
        }
        if let Some(model) = &self.model {
            push_member(&mut params, "model", text_json(model.as_str()));
        }
        let mut config: Vec<(String, Json)> = Vec::new();
        if profile {
            if let Some(name) = &self.permission_profile {
                push_member(&mut config, "default_permissions", text_json(name.as_str()));
            }
        }
        if let Some(limit) = self.compaction_limit() {
            push_member(&mut config, "model_auto_compact_token_limit", number_json(limit));
        }
        proof {
            lemma_member_count(config@);
            assert(member_trees(config@) =~= thread_config(self@, permission_mode@));
        }
        if config.len() > 0 {
            push_member(&mut params, "config", Json::Object(config));
        }
        proof {
            let p = permissions(permission_mode@)->0;
            assert(member_trees(params@) =~= thread_members(
                self@,
                repo@,
                permission_mode@,
                texts(additional_roots@),
                p,
            ));
        }
        Ok(params)
    }

    pub fn turn_sandbox_policy(
        &self,
        repo: &str,
        permission_mode: &str,
        additional_roots: &Vec<String>,
    ) -> (r: Result<Option<Json>, Failure>)
        ensures
            match r {
                Ok(policy) => sandbox_policy(
                    self@,
                    repo@,
                    permission_mode@,
                    texts(additional_roots@),
                ) == Ok::<_, Seq<char>>(seen(policy)),
                Err(e) => sandbox_policy(
                    self@,
                    repo@,
                    permission_mode@,
                    texts(additional_roots@),
                ) == Err::<Option<JsonTree>, _>(e.message@),
            },
    {
        if self.uses_permission_profile(permission_mode) {
            return Ok(None);
        }
        let (_, _, sandbox) = match codex_permissions(permission_mode, &self.harness) {
            Ok(found) => found,
            Err(e) => {
                return Err(e);
            },
        };
        let mut policy: Vec<(String, Json)> = Vec::new();
        if equal(sandbox, "read-only") {
            push_member(&mut policy, "type", text_json("readOnly"));
            push_member(&mut policy, "networkAccess", Json::Bool(false));
        } else if equal(sandbox, "danger-full-access") {
            push_member(&mut policy, "type", text_json("dangerFullAccess"));
        } else {
            let roots = workspace_roots(repo, additional_roots);
            push_member(&mut policy, "type", text_json("workspaceWrite"));
            push_member(&mut policy, "writableRoots", texts_json(&roots));
            push_member(&mut policy, "networkAccess", Json::Bool(false));
        }
        let value = Json::Object(policy);
        proof {
            let want = sandbox_policy(
                self@,
                repo@,
                permission_mode@,
                texts(additional_roots@),
            )->Ok_0->0;
            assert(member_trees(policy@) =~= want->Object_0);
        }
        Ok(Some(value))
    }
}

proof fn lemma_member_count(members: Seq<(String, Json)>)
    ensures
        member_trees(members).len() == members.len(),
    decreases members.len(),
{
    if members.len() > 0 {
        lemma_member_count(members.drop_last());
    }
}

/// The options that a permission mode is, in a session that a person works in.
pub open spec fn mode_args(mode: Seq<char>) -> Option<Seq<Seq<char>>> {
    if mode == "auto"@ || mode == "acceptEdits"@ || mode == "default"@ {
        Some(seq!["--approve-for-me"@])
    } else if mode == "dontAsk"@ {
        Some(seq!["--sandbox"@, "workspace-write"@, "--ask-for-approval"@, "never"@])
    } else if mode == "plan"@ {
        Some(seq!["--sandbox"@, "read-only"@, "--ask-for-approval"@, "never"@])
    } else if mode == "bypassPermissions"@ {
        Some(seq!["--dangerously-bypass-approvals-and-sandbox"@])
    } else {
        None
    }
}

/// The options of a session that a person works in: those of a named profile, or those of
/// the permission mode.
pub open spec fn permission_args(l: CodexView, mode: Seq<char>) -> Option<Seq<Seq<char>>> {
    if profile_used(l, mode) {
        match permissions(mode) {
            Some(p) => Some(
                seq![
                    "-c"@,
                    "default_permissions="@ + json_literal(l.permission_profile->0),
                    "-c"@,
                    "approval_policy="@ + json_literal(p.0),
                    "-c"@,
                    "approvals_reviewer="@ + json_literal(p.1),
                ],
            ),
            None => None,
        }
    } else {
        mode_args(mode)
    }
}

/// The command of a session that a person works in.
pub open spec fn interactive(
    repo: Seq<char>,
    l: CodexView,
    mode: Seq<char>,
    extra: Seq<Seq<char>>,
    prompt: Option<Seq<char>>,
) -> Result<CommandView, Seq<char>> {
    match permission_args(l, mode) {
        None => Err(no_permissions(mode, l.harness)),
        Some(options) => Ok(
            in_environment(
                CommandView {
                    args: l.prefix_args + seq!["--cd"@, repo] + match l.model {
                        Some(model) => seq!["--model"@, model],
                        None => Seq::empty(),
                    } + options + extra + match prompt {
                        Some(prompt) => seq![prompt],
                        None => Seq::empty(),
                    },
                    ..bare_command(l.program, repo)
                },
                l.unset_environment,
                l.environment,
            ),
        ),
    }
}

fn permission_options(launcher: &CodexLauncher, mode: &str) -> (r: Result<Vec<String>, Failure>)
    ensures
        match r {
            Ok(list) => permission_args(launcher@, mode@) == Some(texts(list@)),
            Err(e) => permission_args(launcher@, mode@) is None && e.message@ == no_permissions(
                mode@,
                launcher@.harness,
            ),
        },
{
    let mut list: Vec<String> = Vec::new();
    if launcher.uses_permission_profile(mode) {
        let (approval, reviewer, _) = match codex_permissions(mode, &launcher.harness) {
            Ok(found) => found,
            Err(e) => {
                return Err(e);
            },
        };
        if let Some(profile) = &launcher.permission_profile {
            let first = cat2("default_permissions=", quote_json(profile.as_str()).as_str());
            let second = cat2("approval_policy=", quote_json(approval).as_str());
            let third = cat2("approvals_reviewer=", quote_json(reviewer).as_str());
            push_text(&mut list, "-c");
            push_text(&mut list, first.as_str());
            push_text(&mut list, "-c");
            push_text(&mut list, second.as_str());
            push_text(&mut list, "-c");
            push_text(&mut list, third.as_str());
        }
    } else if equal(mode, "auto") || equal(mode, "acceptEdits") || equal(mode, "default") {
        push_text(&mut list, "--approve-for-me");
    } else if equal(mode, "dontAsk") {
        push_text(&mut list, "--sandbox");
        push_text(&mut list, "workspace-write");
        push_text(&mut list, "--ask-for-approval");
        push_text(&mut list, "never");
    } else if equal(mode, "plan") {
        push_text(&mut list, "--sandbox");
        push_text(&mut list, "read-only");
        push_text(&mut list, "--ask-for-approval");
        push_text(&mut list, "never");
    } else if equal(mode, "bypassPermissions") {
        push_text(&mut list, "--dangerously-bypass-approvals-and-sandbox");
    } else {
        return fail(no_permissions_text(mode, &launcher.harness));
    }
    assert(texts(list@) =~= permission_args(launcher@, mode@)->0);
    Ok(list)
}

pub fn build_interactive_codex_command(
    repo: &str,
    launcher: &CodexLauncher,
    permission_mode: &str,
    interactive_args: &Vec<String>,
    initial_prompt: Option<&str>,
) -> (r: Result<CommandSpec, Failure>)
    ensures
        outcome(r) == interactive(
            repo@,
            launcher@,
            permission_mode@,
            texts(interactive_args@),
            str_option(initial_prompt),
        ),
{
    let options = match permission_options(launcher, permission_mode) {
        Ok(options) => options,
        Err(e) => {
            return Err(e);
        },
    };
    let mut spec = CommandSpec::new(launcher.program.as_str(), repo).args(&launcher.prefix_args);
    spec = spec.arg("--cd").arg(repo);
    if let Some(model) = &launcher.model {
        spec = spec.arg("--model").arg(model.as_str());
    }
    spec = spec.args(&options).args(interactive_args);
    if let Some(prompt) = initial_prompt {
        spec = spec.arg(prompt);
    }
    proof {
        let l = launcher@;
        assert(spec@.args =~= l.prefix_args + seq!["--cd"@, repo@] + match l.model {
            Some(model) => seq!["--model"@, model],
            None => Seq::empty(),
        } + texts(options@) + texts(interactive_args@) + match str_option(initial_prompt) {
            Some(prompt) => seq![prompt],
            None => Seq::empty(),
        });
    }
    Ok(with_environment(spec, &launcher.unset_environment, &launcher.environment))
}

/// A prompt that begins with a slash command: its name, and what follows.
pub open spec fn slash_parts(prompt: Seq<char>) -> Option<(Seq<char>, Seq<char>)> {
    match after_prefix(trimmed_start(prompt), "/"@) {
        Some(rest) => {
            let end = skip_word(rest, 0);
            Some((rest.take(end), trimmed_start(rest.skip(end))))
        },
        None => None,
    }
}

/// Takes a prompt that begins with a slash command apart.
pub fn slash_command(prompt: &str) -> (r: Option<(String, String)>)
    ensures
        match r {
            Some(p) => slash_parts(prompt@) == Some((p.0@, p.1@)),
            None => slash_parts(prompt@) is None,
        },
{
    let bare = trim_start(prompt);
    match strip_prefix(bare.as_str(), "/") {
        Some(rest) => {
            let v = chars_of(rest.as_str());
            proof {
                lemma_skip_bounds(rest@, 0);
            }
            let end = after_word(&v, 0);
            let name = string_of(&v, 0, end);
            let tail = string_of(&v, end, v.len());
            assert(name@ =~= rest@.take(end as int));
            assert(tail@ =~= rest@.skip(end as int));
            Some((name, trim_start(tail.as_str())))
        },
        None => None,
    }
}

/// A path of several parts.
pub open spec fn path_of(a: Seq<char>, b: Seq<char>, c: Seq<char>, d: Seq<char>) -> Seq<char> {
    joined_path(joined_path(joined_path(a, b), c), d)
}

/// Where the skill of a slash command may stand.
pub open spec fn slash_skills(repo: Seq<char>, name: Seq<char>, h: HarnessView) -> Seq<Seq<char>> {
    seq![
        path_of(repo, ".agents/skills"@, name, "SKILL.md"@),
        path_of(repo, h.directory() + "/skills"@, name, "SKILL.md"@),
        path_of(repo, ".opencode/skills"@, name, "SKILL.md"@),
    ]
}

/// Where the instructions of a slash command may stand, where it has no skill.
pub open spec fn slash_commands(repo: Seq<char>, name: Seq<char>, h: HarnessView) -> Seq<Seq<char>> {
    let path = replaced(name, ":"@, "/"@);
    let flat = replaced(replaced(name, ":"@, "-"@), "/"@, "-"@);
    seq![
        joined_path(joined_path(repo, h.directory() + "/commands"@), path + ".md"@),
        joined_path(joined_path(repo, h.directory() + "/commands"@), path),
        joined_path(joined_path(repo, ".opencode/commands"@), flat + ".md"@),
    ]
}

fn path_text(a: &str, b: &str, c: &str, d: &str) -> (r: String)
    ensures
        r@ == path_of(a@, b@, c@, d@),
{
    let one = join_path(a, b);
    let two = join_path(one.as_str(), c);
    join_path(two.as_str(), d)
}

/// Where the skill of a slash command is looked for, in order.
pub fn slash_skill_paths(repo: &str, name: &str, harness: &Harness) -> (r: Vec<String>)
    ensures
        texts(r@) == slash_skills(repo@, name@, harness@),
{
    let mut list: Vec<String> = Vec::new();
    let directory = harness.directory();
    let own = cat2(directory.as_str(), "/skills");
    push_text(&mut list, path_text(repo, ".agents/skills", name, "SKILL.md").as_str());
    push_text(&mut list, path_text(repo, own.as_str(), name, "SKILL.md").as_str());
    push_text(&mut list, path_text(repo, ".opencode/skills", name, "SKILL.md").as_str());
    assert(texts(list@) =~= slash_skills(repo@, name@, harness@));
    list
}

/// Where the instructions of a slash command are looked for, in order.
pub fn slash_command_paths(repo: &str, name: &str, harness: &Harness) -> (r: Vec<String>)
    ensures
        texts(r@) == slash_commands(repo@, name@, harness@),
{
    proof {
        reveal_strlit(":");
        reveal_strlit("/");
    }
    let path = replace(name, ":", "/");
    let dashed = replace(name, ":", "-");
    let flat = replace(dashed.as_str(), "/", "-");
    let directory = harness.directory();
    let own = cat2(directory.as_str(), "/commands");
    let base = join_path(repo, own.as_str());
    let other = join_path(repo, ".opencode/commands");
    let mut list: Vec<String> = Vec::new();
    push_text(&mut list, join_path(base.as_str(), cat2(path.as_str(), ".md").as_str()).as_str());
    push_text(&mut list, join_path(base.as_str(), path.as_str()).as_str());
    push_text(&mut list, join_path(other.as_str(), cat2(flat.as_str(), ".md").as_str()).as_str());
    assert(texts(list@) =~= slash_commands(repo@, name@, harness@));
    list
}

/// What was found for a slash command.
#[derive(Debug, Clone)]
pub enum SlashSource {
    /// The file of a skill.
    Skill(String),
    /// The instructions of a command.
    Instructions(String),
    /// Nothing.
    Missing,
}

pub const FOLLOW_1: &'static str = "Follow the installed `";

pub const FOLLOW_2: &'static str =
    "` workflow instructions below as the authoritative procedure for this invocation.\n\n";

/// One text of an input.
pub open spec fn text_input(text: Seq<char>) -> JsonTree {
    JsonTree::Object(seq![("type"@, JsonTree::Text("text"@)), ("text"@, JsonTree::Text(text))])
}

/// The input of a turn.
pub open spec fn turn_input(prompt: Seq<char>, source: SlashSource) -> JsonTree {
    match (slash_parts(prompt), source) {
        (Some(p), SlashSource::Skill(path)) => JsonTree::Array(
            seq![
                JsonTree::Object(
                    seq![
                        ("type"@, JsonTree::Text("skill"@)),
                        ("name"@, JsonTree::Text(p.0)),
                        ("path"@, JsonTree::Text(path@)),
                    ],
                ),
                text_input(p.1),
            ],
        ),
        (Some(p), SlashSource::Instructions(text)) => JsonTree::Array(
            seq![
                text_input(
                    FOLLOW_1@ + p.0 + FOLLOW_2@ + text@ + "\n\nASSIGNMENT\n\n"@ + p.1,
                ),
            ],
        ),
        _ => JsonTree::Array(seq![text_input(prompt)]),
    }
}

fn text_part(text: &str) -> (r: Json)
    ensures
        r@ == text_input(text@),
{
    let mut members: Vec<(String, Json)> = Vec::new();
    push_member(&mut members, "type", text_json("text"));
    push_member(&mut members, "text", text_json(text));
    assert(member_trees(members@) =~= seq![
        ("type"@, JsonTree::Text("text"@)),
        ("text"@, JsonTree::Text(text@)),
    ]);
    Json::Object(members)
}

/// The input that is one text.
pub fn codex_turn_input_text(text: &str) -> (r: Json)
    ensures
        r@ == JsonTree::Array(seq![text_input(text@)]),
{
    let mut items: Vec<Json> = Vec::new();
    push_item(&mut items, text_part(text));
    assert(item_trees(items@) =~= seq![text_input(text@)]);
    Json::Array(items)
}

/// The input of a turn, given what was found for the slash command it may begin with.
pub fn codex_turn_input(prompt: &str, source: &SlashSource) -> (r: Json)
    ensures
        r@ == turn_input(prompt@, *source),
{
    let mut items: Vec<Json> = Vec::new();
    match slash_command(prompt) {
        Some(parts) => {
            let (name, remainder) = parts;
            match source {
                SlashSource::Skill(path) => {
                    let mut members: Vec<(String, Json)> = Vec::new();
                    push_member(&mut members, "type", text_json("skill"));
                    push_member(&mut members, "name", text_json(name.as_str()));
                    push_member(&mut members, "path", text_json(path.as_str()));
                    assert(member_trees(members@) =~= seq![
                        ("type"@, JsonTree::Text("skill"@)),
                        ("name"@, JsonTree::Text(name@)),
                        ("path"@, JsonTree::Text(path@)),
                    ]);
                    push_item(&mut items, Json::Object(members));
                    push_item(&mut items, text_part(remainder.as_str()));
                },
                SlashSource::Instructions(text) => {
                    let head = cat5(FOLLOW_1, name.as_str(), FOLLOW_2, text.as_str(), "\n\nASSIGNMENT\n\n");
                    let whole = cat2(head.as_str(), remainder.as_str());
                    push_item(&mut items, text_part(whole.as_str()));
                },
                SlashSource::Missing => {
                    push_item(&mut items, text_part(prompt));
                },
            }
        },
        None => {
            push_item(&mut items, text_part(prompt));
        },
    }
    assert(item_trees(items@) =~= turn_input(prompt@, *source)->Array_0);
    Json::Array(items)
}

/// The message that an event completes, if it completes one.
pub open spec fn completed_text(event: Json) -> Option<Seq<char>> {
    let item = member_of(member(event, "params"@), "item"@);
    if text_in(member(event, "method"@)) == Some("item/completed"@) && text_in(
        member_of(item, "type"@),
    ) == Some("agentMessage"@) {
        text_in(member_of(item, "text"@))
    } else {
        None
    }
}

pub(crate) fn is_text(value: Option<&Json>, word: &str) -> (r: bool)
    ensures
        r == (text_in(target(value)) == Some(word@)),
{
    match as_text(value) {
        Some(text) => equal(text, word),
        None => false,
    }
}

pub fn completed_agent_text<'a>(event: &'a Json) -> (r: Option<&'a str>)
    ensures
        str_option(r) == completed_text(*event),
{
    let item = get_in(event.get("params"), "item");
    if is_text(event.get("method"), "item/completed") && is_text(
        get_in(item, "type"),
        "agentMessage",
    ) {
        as_text(get_in(item, "text"))
    } else {
        None
    }
}

/// A number of a report, or none.
pub open spec fn or_zero(value: Option<u64>) -> nat {
    match value {
        Some(n) => n as nat,
        None => 0,
    }
}

/// What share of a window is used, in percent.
pub open spec fn share(input: u64, window: u64) -> nat {
    ((if input * 100 > u64::MAX {
        u64::MAX as int
    } else {
        input * 100
    }) / (if window == 0 {
        1int
    } else {
        window as int
    })) as nat
}

/// What an event reports of the use of the context, if it does.
pub open spec fn usage_report(event: Json) -> Option<Seq<char>> {
    let usage = member_of(member(event, "params"@), "tokenUsage"@);
    let last = member_of(usage, "last"@);
    let cached = decimal(or_zero(unsigned_in(member_of(last, "cachedInputTokens"@))));
    let output = decimal(or_zero(unsigned_in(member_of(last, "outputTokens"@))));
    match unsigned_in(member_of(last, "inputTokens"@)) {
        Some(input) if text_in(member(event, "method"@)) == Some("thread/tokenUsage/updated"@) => Some(
            match unsigned_in(member_of(usage, "modelContextWindow"@)) {
                None => "Codex context: "@ + decimal(input as nat) + " input ("@ + cached
                    + " cached), "@ + output + " output tokens"@,
                Some(window) => "Codex context: "@ + decimal(input as nat) + "/"@ + decimal(
                    window as nat,
                ) + " input tokens ("@ + decimal(share(input, window)) + "%, "@ + cached
                    + " cached), "@ + output + " output tokens"@,
            },
        ),
        _ => None,
    }
}

pub fn context_usage_report(event: &Json) -> (r: Option<String>)
    ensures
        text_option(r) == usage_report(*event),
{
    if !is_text(event.get("method"), "thread/tokenUsage/updated") {
        return None;
    }
    let usage = get_in(event.get("params"), "tokenUsage");
    let last = get_in(usage, "last");
    let input = match as_unsigned(get_in(last, "inputTokens")) {
        Some(input) => input,
        None => {
            return None;
        },
    };
    let cached_count: u64 = match as_unsigned(get_in(last, "cachedInputTokens")) {
        Some(n) => n,
        None => 0,
    };
    let output_count: u64 = match as_unsigned(get_in(last, "outputTokens")) {
        Some(n) => n,
        None => 0,
    };
    let cached = decimal_text(cached_count);
    let output = decimal_text(output_count);
    let used = decimal_text(input);
    match as_unsigned(get_in(usage, "modelContextWindow")) {
        None => {
            Some(
                cat7(
                    "Codex context: ",
                    used.as_str(),
                    " input (",
                    cached.as_str(),
                    " cached), ",
                    output.as_str(),
                    " output tokens",
                ),
            )
        },
        Some(window) => {
            let total: u64 = match input.checked_mul(100) {
                Some(total) => total,
                None => u64::MAX,
            };
            let size: u64 = if window == 0 {
                1
            } else {
                window
            };
            let percent: u64 = total / size;
            let bound = decimal_text(window);
            let part = decimal_text(percent);
            let head = cat5("Codex context: ", used.as_str(), "/", bound.as_str(), " input tokens (");
            Some(
                cat7(
                    head.as_str(),
                    part.as_str(),
                    "%, ",
                    cached.as_str(),
                    " cached), ",
                    output.as_str(),
                    " output tokens",
                ),
            )
        },
    }
}

/// What each permission mode lets the harness do. A mode that is not among them has no
/// meaning here and is refused.
pub proof fn law_permission_modes_have_their_meaning(mode: Seq<char>)
    ensures
        mode == "auto"@ || mode == "acceptEdits"@ || mode == "default"@ ==> permissions(mode)
            == Some(("on-request"@, "auto_review"@, "workspace-write"@)) && mode_args(mode) == Some(
            seq!["--approve-for-me"@],
        ),
        mode == "dontAsk"@ ==> permissions(mode) == Some(
            ("never"@, "user"@, "workspace-write"@),
        ) && mode_args(mode) == Some(
            seq!["--sandbox"@, "workspace-write"@, "--ask-for-approval"@, "never"@],
        ),
        mode == "plan"@ ==> permissions(mode) == Some(("never"@, "user"@, "read-only"@))
            && mode_args(mode) == Some(
            seq!["--sandbox"@, "read-only"@, "--ask-for-approval"@, "never"@],
        ),
        mode == "bypassPermissions"@ ==> permissions(mode) == Some(
            ("never"@, "user"@, "danger-full-access"@),
        ) && mode_args(mode) == Some(seq!["--dangerously-bypass-approvals-and-sandbox"@]),
        permissions(mode) is Some <==> mode == "auto"@ || mode == "acceptEdits"@ || mode
            == "default"@ || mode == "dontAsk"@ || mode == "plan"@ || mode
            == "bypassPermissions"@,
        mode_args(mode) is Some <==> permissions(mode) is Some,
{
    reveal_strlit("auto");
    reveal_strlit("acceptEdits");
    reveal_strlit("default");
    reveal_strlit("dontAsk");
    reveal_strlit("plan");
    reveal_strlit("bypassPermissions");
    assert("auto"@.len() == 4 && "acceptEdits"@.len() == 11 && "default"@.len() == 7);
    assert("dontAsk"@.len() == 7 && "plan"@.len() == 4 && "bypassPermissions"@.len() == 17);
    assert("auto"@[0] == 'a' && "plan"@[0] == 'p');
    assert("default"@[1] == 'e' && "dontAsk"@[1] == 'o');
}

/// A launcher is made of its connection. Its command has a program, and it has a state
/// directory of its own exactly where the user names none.
pub proof fn law_connections_make_their_launcher(
    c: AgentConnection,
    surrounding: Seq<(Seq<char>, Seq<char>)>,
    home: Option<Seq<char>>,
    h: HarnessView,
)
    ensures
        codex_launcher(c, surrounding, home, h) is Ok ==> c.backend == BackendKind::Codex,
        codex_launcher(c, surrounding, home, h) matches Ok(l) ==> {
            &&& command_words(c.command@, COMMAND@) == Ok::<_, Seq<char>>(
                seq![l.program] + l.prefix_args,
            )
            &&& l.connection_name == text_option(c.name)
            &&& l.environment_name == text_option(c.environment_name)
            &&& l.model == text_option(c.model)
            &&& l.permission_profile == text_option(c.permission_profile)
            &&& l.structured_output == c.structured_output
            &&& l.context_window == c.context_window
            &&& l.auto_compact_window == c.auto_compact_window
            &&& l.auto_compact_percent == c.auto_compact_percent
            &&& l.max_output_tokens == c.max_output_tokens
            &&& gives(l.environment, "CODEX_HOME"@) ==> l.isolated_home is None
            &&& lookup(surrounding, "CODEX_HOME"@) is Some && !l.unset_environment.contains(
                "CODEX_HOME"@,
            ) ==> l.isolated_home is None
            &&& l.isolated_home is None ==> gives(l.environment, "CODEX_HOME"@) || (lookup(
                surrounding,
                "CODEX_HOME"@,
            ) is Some && !l.unset_environment.contains("CODEX_HOME"@))
            &&& l.isolated_home matches Some(own) ==> home is Some && own == isolated(
                joined_path(home->0, ".codex"@),
            )
        },
{
    if codex_launcher(c, surrounding, home, h) is Ok {
        let w = command_words(c.command@, COMMAND@)->Ok_0;
        assert(seq![w[0]] + w.skip(1) =~= w);
    }
}

/// The server is the program of the launcher, run in the repository and listening on its
/// input. One with a state directory of its own is pointed to it and to no other.
pub proof fn law_servers_keep_to_their_state(l: CodexView, repo: Seq<char>)
    ensures
        ({
            let c = server(l, repo);
            &&& c.program == l.program
            &&& c.cwd == repo
            &&& l.prefix_args.is_prefix_of(c.args)
            &&& c.args.len() >= 3
            &&& c.args.subrange(c.args.len() - 3, c.args.len() as int) == seq![
                "app-server"@,
                "--listen"@,
                "stdio://"@,
            ]
            &&& l.isolated_home is None ==> c.args.len() == l.prefix_args.len() + 3
            &&& l.isolated_home matches Some(home) ==> c.env.last() == ("CODEX_HOME"@, home.path)
                && c.env_remove.last() == "CODEX_SQLITE_HOME"@ && c.args[l.prefix_args.len() as int
                + 1] == "sqlite_home="@ + toml_literal(home.path)
        }),
{
    let options = match l.isolated_home {
        Some(home) => seq![
            "-c"@,
            "sqlite_home="@ + toml_literal(home.path),
            "-c"@,
            "log_dir="@ + toml_literal(joined_path(home.path, "log"@)),
        ],
        None => Seq::empty(),
    };
    let bare = CommandView {
        args: l.prefix_args + options + seq!["app-server"@, "--listen"@, "stdio://"@],
        ..bare_command(l.program, repo)
    };
    crate::launch::law_commands_get_their_environment(bare, l.unset_environment, l.environment);
    let c = server(l, repo);
    assert(c.args == bare.args);
    assert(c.args.subrange(0, l.prefix_args.len() as int) =~= l.prefix_args);
    assert(c.args.subrange(c.args.len() - 3, c.args.len() as int) =~= seq![
        "app-server"@,
        "--listen"@,
        "stdio://"@,
    ]);
}

/// A conversation is compacted at the number of tokens that is set, else at the share of its
/// window that is set, and without either at none.
pub proof fn law_when_conversations_are_compacted(l: CodexView)
    ensures
        l.auto_compact_window is Some ==> compact_at(l) == l.auto_compact_window,
        l.auto_compact_window is None && (l.context_window is None || l.auto_compact_percent is None)
            ==> compact_at(l) is None,
        l.auto_compact_window is None ==> (l.context_window matches Some(w) ==> (
        l.auto_compact_percent matches Some(p) ==> (w * p <= u64::MAX ==> (compact_at(
            l,
        ) matches Some(n) && 100 * n <= w * p < 100 * (n + 1))))),
        l.auto_compact_window is None ==> (l.context_window matches Some(w) ==> (
        l.auto_compact_percent matches Some(p) ==> (w * p > u64::MAX ==> compact_at(l) == Some(
            (u64::MAX / 100) as u64,
        )))),
{
    if l.context_window is Some && l.auto_compact_percent is Some {
        let t = l.context_window->0 * l.auto_compact_percent->0;
        assert(0 <= t) by (nonlinear_arith)
            requires
                t == l.context_window->0 * l.auto_compact_percent->0,
        ;
    }
}

/// A named profile of permissions takes the place of what the mode may touch, except where
/// the mode plans or bypasses all permissions.
pub proof fn law_profiles_replace_the_sandbox(
    l: CodexView,
    repo: Seq<char>,
    mode: Seq<char>,
    additional: Seq<Seq<char>>,
)
    ensures
        profile_used(l, mode) <==> l.permission_profile is Some && (mode == "auto"@ || mode
            == "acceptEdits"@ || mode == "default"@ || mode == "dontAsk"@),
        profile_used(l, mode) ==> sandbox_policy(l, repo, mode, additional) == Ok::<_, Seq<char>>(
            None::<JsonTree>,
        ),
        profile_used(l, mode) ==> thread_config(l, mode)[0] == (
            "default_permissions"@,
            JsonTree::Text(l.permission_profile->0),
        ),
        !profile_used(l, mode) && permissions(mode) is None ==> sandbox_policy(
            l,
            repo,
            mode,
            additional,
        ) is Err,
        mode == "plan"@ ==> sandbox_policy(l, repo, mode, additional) == Ok::<_, Seq<char>>(
            Some(
                JsonTree::Object(
                    seq![
                        ("type"@, JsonTree::Text("readOnly"@)),
                        ("networkAccess"@, JsonTree::Bool(false)),
                    ],
                ),
            ),
        ),
        mode == "bypassPermissions"@ ==> sandbox_policy(l, repo, mode, additional) == Ok::<
            _,
            Seq<char>,
        >(Some(JsonTree::Object(seq![("type"@, JsonTree::Text("dangerFullAccess"@))]))),
        l.permission_profile is None && (mode == "auto"@ || mode == "acceptEdits"@ || mode
            == "default"@ || mode == "dontAsk"@) ==> sandbox_policy(l, repo, mode, additional)
            == Ok::<_, Seq<char>>(
            Some(
                JsonTree::Object(
                    seq![
                        ("type"@, JsonTree::Text("workspaceWrite"@)),
                        (
                            "writableRoots"@,
                            JsonTree::Array(text_items(with_missing(seq![repo], additional))),
                        ),
                        ("networkAccess"@, JsonTree::Bool(false)),
                    ],
                ),
            ),
        ),
{
    law_permission_modes_have_their_meaning(mode);
    reveal_strlit("auto");
    reveal_strlit("acceptEdits");
    reveal_strlit("default");
    reveal_strlit("dontAsk");
    reveal_strlit("plan");
    reveal_strlit("bypassPermissions");
    reveal_strlit("read-only");
    reveal_strlit("danger-full-access");
    reveal_strlit("workspace-write");
    assert("auto"@.len() == 4 && "acceptEdits"@.len() == 11 && "default"@.len() == 7);
    assert("dontAsk"@.len() == 7 && "plan"@.len() == 4 && "bypassPermissions"@.len() == 17);
    assert("auto"@[0] == 'a' && "plan"@[0] == 'p');
    assert("read-only"@.len() == 9 && "danger-full-access"@.len() == 18
        && "workspace-write"@.len() == 15);
}

/// A conversation is started in the repository with what its mode asks for, and with its
/// model where it has one.
pub proof fn law_conversations_are_started_as_asked(
    l: CodexView,
    repo: Seq<char>,
    mode: Seq<char>,
    additional: Seq<Seq<char>>,
    p: (Seq<char>, Seq<char>, Seq<char>),
)
    ensures
        ({
            let r = thread_members(l, repo, mode, additional, p);
            &&& r[0] == ("cwd"@, JsonTree::Text(repo))
            &&& r[1] == ("approvalPolicy"@, JsonTree::Text(p.0))
            &&& r[2] == ("approvalsReviewer"@, JsonTree::Text(p.1))
            &&& r[3] == (
                "runtimeWorkspaceRoots"@,
                JsonTree::Array(text_items(with_missing(seq![repo], additional))),
            )
            &&& !profile_used(l, mode) ==> r[4] == ("sandbox"@, JsonTree::Text(p.2))
            &&& l.model matches Some(m) ==> r.contains(("model"@, JsonTree::Text(m)))
            &&& thread_config(l, mode).len() > 0 ==> r.last() == (
                "config"@,
                JsonTree::Object(thread_config(l, mode)),
            )
            &&& compact_at(l) matches Some(n) ==> thread_config(l, mode).last() == (
                "model_auto_compact_token_limit"@,
                JsonTree::Number(decimal(n as nat)),
            )
        }),
{
    let r = thread_members(l, repo, mode, additional, p);
    if l.model is Some {
        let at: int = if profile_used(l, mode) {
            4
        } else {
            5
        };
        assert(r[at] == ("model"@, JsonTree::Text(l.model->0)));
    }
}

/// A session that a person works in is the program of the launcher, told the repository, its
/// model, its permissions and whatever else was given, with the prompt last.
pub proof fn law_interactive_sessions_get_their_options(
    repo: Seq<char>,
    l: CodexView,
    mode: Seq<char>,
    extra: Seq<Seq<char>>,
    prompt: Seq<char>,
)
    ensures
        interactive(repo, l, mode, extra, Some(prompt)) is Ok <==> permissions(mode) is Some,
        interactive(repo, l, mode, extra, Some(prompt)) matches Ok(c) ==> {
            &&& c.program == l.program
            &&& c.cwd == repo
            &&& (l.prefix_args + seq!["--cd"@, repo]).is_prefix_of(c.args)
            &&& (permission_args(l, mode)->0 + extra + seq![prompt]).is_suffix_of(c.args)
            &&& l.model matches Some(m) ==> c.args[l.prefix_args.len() as int + 3] == m
            &&& interactive(repo, l, mode, extra, None) matches Ok(d) && c.args == d.args.push(prompt)
        },
        !profile_used(l, mode) ==> permission_args(l, mode) == mode_args(mode),
{
    law_permission_modes_have_their_meaning(mode);
    if interactive(repo, l, mode, extra, Some(prompt)) is Ok {
        let options = permission_args(l, mode)->0;
        let model = match l.model {
            Some(model) => seq!["--model"@, model],
            None => Seq::empty(),
        };
        let head = l.prefix_args + seq!["--cd"@, repo] + model + options + extra;
        let with = CommandView { args: head + seq![prompt], ..bare_command(l.program, repo) };
        let without = CommandView {
            args: head + Seq::<Seq<char>>::empty(),
            ..bare_command(l.program, repo)
        };
        crate::launch::law_commands_get_their_environment(with, l.unset_environment, l.environment);
        crate::launch::law_commands_get_their_environment(
            without,
            l.unset_environment,
            l.environment,
        );
        let c = interactive(repo, l, mode, extra, Some(prompt))->Ok_0;
        assert(c.args == with.args);
        let first = l.prefix_args + seq!["--cd"@, repo];
        assert(c.args.subrange(0, first.len() as int) =~= first);
        let last = options + extra + seq![prompt];
        assert(c.args.subrange(c.args.len() - last.len(), c.args.len() as int) =~= last);
        let d = interactive(repo, l, mode, extra, None)->Ok_0;
        assert(d.args == without.args);
        assert(c.args =~= d.args.push(prompt));
    }
}

/// A prompt without a slash command, or one for which nothing was found, is handed over as it
/// is. The skill of a slash command is handed over by its file, with the rest of the prompt
/// behind it.
pub proof fn law_prompts_are_handed_over(prompt: Seq<char>, path: String)
    ensures
        turn_input(prompt, SlashSource::Missing) == JsonTree::Array(
            seq![
                JsonTree::Object(
                    seq![("type"@, JsonTree::Text("text"@)), ("text"@, JsonTree::Text(prompt))],
                ),
            ],
        ),
        slash_parts(prompt) is None ==> turn_input(prompt, SlashSource::Skill(path)) == turn_input(
            prompt,
            SlashSource::Missing,
        ) && turn_input(prompt, SlashSource::Instructions(path)) == turn_input(
            prompt,
            SlashSource::Missing,
        ),
        slash_parts(prompt) matches Some(p) ==> turn_input(prompt, SlashSource::Skill(path))
            == JsonTree::Array(
            seq![
                JsonTree::Object(
                    seq![
                        ("type"@, JsonTree::Text("skill"@)),
                        ("name"@, JsonTree::Text(p.0)),
                        ("path"@, JsonTree::Text(path@)),
                    ],
                ),
                JsonTree::Object(
                    seq![("type"@, JsonTree::Text("text"@)), ("text"@, JsonTree::Text(p.1))],
                ),
            ],
        ),
{
}

/// The share of a window that is used is its percentage, rounded down. A window of nothing
/// counts as one.
pub proof fn law_shares_are_percentages(input: u64, window: u64)
    requires
        input * 100 <= u64::MAX,
    ensures
        window > 0 ==> share(input, window) * window <= 100 * input < (share(input, window) + 1)
            * window,
        share(input, 0) == 100 * input,
{
    if window > 0 {
        let t = 100 * input;
        let w = window as int;
        assert((t / w) * w <= t < (t / w + 1) * w) by (nonlinear_arith)
            requires
                w > 0,
                t >= 0,
        ;
        assert(0 <= t / w) by (nonlinear_arith)
            requires
                w > 0,
                t >= 0,
        ;
    }
}

} // verus!
