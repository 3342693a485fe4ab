use opsx_build::backend::{
    stage_result_from_text, SessionId, SessionMode, StageProtocol, StageSignal,
};
use opsx_build::cli::{AgentConnection, BackendKind, ConnectionEnvironmentValue};
use opsx_build::codex::{
    build_interactive_codex_command, codex_permissions, codex_turn_input, slash_command,
    slash_skill_paths, CodexLauncher, SlashSource,
};
use opsx_build::codex_home::{import_session, link_shared, IsolatedCodexHome, LinkAction, Place};
use opsx_build::codex_server::{
    compact_thread_params, confirms_compaction, exit_message, initialize_params, notification_line,
    rename_thread_params, request_line, resume_thread_params, sort_message, start_thread_params,
    start_turn_params, started_thread, steer_turn_params, thread_name, timeout_message,
    ActiveThreads, CodexRequestError, Reply,
};
use opsx_build::codex_stream::{CodexStream, MAX_REASONING_SUMMARY_CHARS};
use opsx_build::codex_turn::{
    after_resume, after_turn, begin_phase, classify_turn_error, on_control, provider_retry_delay,
    timed_out, Between, ControlStep, Pending, PhaseStep, RetryLimits, TurnError, TurnOutcome,
    TurnState,
};
use opsx_build::json::{Json, JsonNumber};
use opsx_build::names::Harness;
use opsx_build::stream::{StreamControl, StreamFilter, StreamItem};
use serde_json::Value;

fn harness() -> Harness {
    Harness { title: "Agent".to_owned(), name: "agent".to_owned() }
}

fn plain(value: Value) -> Json {
    match value {
        Value::Null => Json::Null,
        Value::Bool(b) => Json::Bool(b),
        Value::Number(n) => Json::Number(JsonNumber {
            text: n.to_string(),
            unsigned: n.as_u64(),
            signed: n.as_i64(),
        }),
        Value::String(s) => Json::Text(s),
        Value::Array(items) => Json::Array(items.into_iter().map(plain).collect()),
        Value::Object(members) => {
            Json::Object(members.into_iter().map(|(k, v)| (k, plain(v))).collect())
        }
    }
}

fn json(text: &str) -> Json {
    plain(serde_json::from_str(text).unwrap())
}

fn wire(value: &Json) -> Value {
    match value {
        Json::Null => Value::Null,
        Json::Bool(b) => Value::Bool(*b),
        Json::Number(n) => Value::Number(n.text.parse().unwrap()),
        Json::Text(s) => Value::String(s.clone()),
        Json::Array(items) => Value::Array(items.iter().map(wire).collect()),
        Json::Object(members) => {
            Value::Object(members.iter().map(|(k, v)| (k.clone(), wire(v))).collect())
        }
    }
}

fn connection() -> AgentConnection {
    AgentConnection {
        name: Some("codex-worker".to_owned()),
        backend: BackendKind::Codex,
        environment_name: None,
        command: "codex".to_owned(),
        model: None,
        permission_profile: None,
        structured_output: true,
        context_window: None,
        auto_compact_window: None,
        auto_compact_percent: None,
        max_output_tokens: None,
        env: vec![],
        isolate: true,
        unset_env: vec![],
    }
}

#[test]
fn resolves_codex_connection_and_command() {
    let mut connection = AgentConnection {
        command: "codex --profile local".to_owned(),
        model: Some("gpt-5.6-codex".to_owned()),
        context_window: Some(200_000),
        auto_compact_percent: Some(75),
        unset_env: vec!["CODEX_HOME".to_owned()],
        ..connection()
    };
    let launcher =
        CodexLauncher::from_connection(&connection, &vec![], Some("/home/me"), &harness()).unwrap();
    assert_eq!(launcher.program, "codex");
    assert_eq!(launcher.prefix_args, ["--profile", "local"]);
    assert_eq!(launcher.compaction_limit(), Some(150_000));
    let policy = launcher.turn_sandbox_policy("/repo", "auto", &vec![]).unwrap().unwrap();
    assert_eq!(wire(&policy)["writableRoots"], Value::from(vec!["/repo"]));
    let server = launcher.server_command("/repo");
    let home = launcher.isolated_home.as_ref().unwrap();
    assert!(server.args.starts_with(&["--profile".to_owned(), "local".to_owned()]));
    assert!(server.args.ends_with(&[
        "app-server".to_owned(),
        "--listen".to_owned(),
        "stdio://".to_owned()
    ]));
    assert!(server.env.contains(&("CODEX_HOME".to_owned(), home.path.clone())));
    assert!(server.env_remove.contains(&"CODEX_SQLITE_HOME".to_owned()));
    assert!(server.args.iter().any(|arg| arg.starts_with("sqlite_home=")));
    assert!(server.args.iter().any(|arg| arg.starts_with("log_dir=")));
    let quoted = toml::Value::String(home.path.clone()).to_string();
    assert!(server.args.contains(&format!("sqlite_home={quoted}")));
    let interactive =
        build_interactive_codex_command("/repo", &launcher, "auto", &vec![], Some("hello"))
            .unwrap();
    assert!(interactive.args.iter().any(|arg| arg == "--approve-for-me"));
    assert!(!interactive.env.iter().any(|(name, _)| name == "CODEX_HOME"));
    assert!(!interactive.args.iter().any(|arg| arg.starts_with("sqlite_home=")));

    connection.env.push((
        "CODEX_HOME".to_owned(),
        ConnectionEnvironmentValue::Literal("/custom/codex".to_owned()),
    ));
    let launcher =
        CodexLauncher::from_connection(&connection, &vec![], Some("/home/me"), &harness()).unwrap();
    assert!(launcher.isolated_home.is_none());
    let server = launcher.server_command("/repo");
    assert!(server.env.contains(&("CODEX_HOME".to_owned(), "/custom/codex".to_owned())));
    assert!(!server.args.iter().any(|arg| arg.starts_with("sqlite_home=")));
}

#[test]
fn named_permission_profile_replaces_inline_codex_sandbox() {
    let connection = AgentConnection {
        permission_profile: Some("opsx-build".to_owned()),
        auto_compact_window: Some(150_000),
        ..connection()
    };
    let launcher = CodexLauncher::from_connection(&connection, &vec![], Some("/home/me"), &harness()).unwrap();
    let params = launcher.thread_params("/repo", "auto", &vec![]).unwrap();
    let params = wire(&Json::Object(params));
    assert!(params.get("sandbox").is_none());
    assert_eq!(params["config"]["default_permissions"], "opsx-build");
    assert_eq!(params["config"]["model_auto_compact_token_limit"], 150_000);
    assert!(launcher.turn_sandbox_policy("/repo", "auto", &vec![]).unwrap().is_none());

    let interactive =
        build_interactive_codex_command("/repo", &launcher, "auto", &vec![], None).unwrap();
    assert!(interactive
        .args
        .windows(2)
        .any(|pair| pair == ["-c", "default_permissions=\"opsx-build\""]));
    assert!(!interactive.args.iter().any(|arg| arg == "--sandbox"));
    assert!(!interactive.args.iter().any(|arg| arg == "--approve-for-me"));
}

#[test]
fn maps_codex_permission_modes_conservatively() {
    assert_eq!(
        codex_permissions("auto", &harness()).unwrap(),
        ("on-request", "auto_review", "workspace-write")
    );
    assert_eq!(
        codex_permissions("dontAsk", &harness()).unwrap(),
        ("never", "user", "workspace-write")
    );
    assert!(codex_permissions("mystery", &harness()).is_err());
}

#[test]
fn parses_structured_codex_stage_result() {
    let result = stage_result_from_text(
        r#"{"opsx_status":"READY","summary":"done"}"#,
        Some("thread-1".to_owned()),
        "Codex",
    )
    .unwrap();
    assert_eq!(result.text, "done");
    assert_eq!(result.session_id.as_deref(), Some("thread-1"));
}

#[test]
fn activity_ellipsizes_long_codex_tool_commands() {
    let command = format!("echo first\\n{}", "x".repeat(300));
    let event = json(&format!(
        r#"{{"method":"item/completed","params":{{"item":{{"type":"commandExecution",
            "command":"{command}",
            "aggregatedOutput":"full output remains hidden in activity mode"}}}}}}"#
    ));

    let items = CodexStream::new().filter_event(&event, StreamFilter::Activity);
    let [StreamItem::Tool(summary)] = items.as_slice() else {
        panic!("expected one tool summary, got {items:?}");
    };
    assert!(summary.starts_with("Shell: echo first "));
    assert!(summary.ends_with('…'));
    assert_eq!(summary.chars().count(), "Shell: ".chars().count() + 240);
    assert!(!summary.contains('\n'));
    assert!(!summary.contains("full output remains hidden"));
}

fn delta(id: &str, index: u64, text: &str) -> Json {
    plain(serde_json::Value::Object(
        [
            ("method".to_owned(), Value::from("item/reasoning/summaryTextDelta")),
            (
                "params".to_owned(),
                Value::Object(
                    [
                        ("itemId".to_owned(), Value::from(id)),
                        ("summaryIndex".to_owned(), Value::from(index)),
                        ("delta".to_owned(), Value::from(text)),
                    ]
                    .into_iter()
                    .collect(),
                ),
            ),
        ]
        .into_iter()
        .collect(),
    ))
}

#[test]
fn reasoning_stream_emits_paragraphs_once_and_finishes_partial_summaries() {
    let mut stream = CodexStream::new();
    let filter = StreamFilter::Reasoning;
    assert!(stream.filter_event(&delta("r1", 0, "Checking retry"), filter).is_empty());
    assert_eq!(
        stream.filter_event(&delta("r1", 0, " reset.\n\nSuccess resets"), filter),
        [StreamItem::Reasoning("Checking retry reset.".to_owned())]
    );
    let completed = json(
        r#"{"method":"item/completed", "params":{"item":{
            "id":"r1", "type":"reasoning",
            "summary":["Checking retry reset.\n\nSuccess resets the counter.", "Adding coverage."],
            "content":["Raw reasoning must not appear"]
        }}}"#,
    );
    assert_eq!(
        stream.filter_event(&completed, filter),
        [
            StreamItem::Reasoning("Success resets the counter.".to_owned()),
            StreamItem::Reasoning("Adding coverage.".to_owned()),
        ]
    );
    assert!(stream.filter_event(&completed, filter).is_empty());

    assert!(stream.filter_event(&delta("r2", 0, "Checking cancellation."), filter).is_empty());
    assert_eq!(
        stream.filter_event(
            &json(
                r#"{"method":"item/reasoning/summaryPartAdded",
                    "params":{"itemId":"r2", "summaryIndex":1}}"#
            ),
            filter
        ),
        [StreamItem::Reasoning("Checking cancellation.".to_owned())]
    );
    assert!(stream
        .filter_event(&delta("r2", 1, "Cancellation is separate."), filter)
        .is_empty());
    assert_eq!(
        stream.filter_event(&json(r#"{"method":"turn/completed"}"#), filter),
        [StreamItem::Reasoning("Cancellation is separate.".to_owned())]
    );
}

#[test]
fn reasoning_stream_is_opt_in_bounded_and_ignores_raw_reasoning() {
    let text = r#"{"method":"item/completed","params":{"item":{"content":["Raw text"],"id":"r1","summary":["Public summary."],"type":"reasoning"}}}"#;
    let event = json(text);
    assert!(CodexStream::new().filter_event(&event, StreamFilter::Activity).is_empty());
    assert_eq!(
        CodexStream::new().filter_event(&event, StreamFilter::Raw),
        [StreamItem::Raw(wire(&event).to_string())]
    );
    for filter in [StreamFilter::Reasoning, StreamFilter::Full] {
        let mut stream = CodexStream::new();
        assert_eq!(
            stream.filter_event(&event, filter),
            [StreamItem::Reasoning("Public summary.".to_owned())]
        );
        assert!(stream
            .filter_event(
                &json(
                    r#"{"method":"item/reasoning/textDelta",
                        "params":{"itemId":"r1", "delta":"Raw text"}}"#
                ),
                filter
            )
            .is_empty());
        let long = "é".repeat(900);
        let items = stream.filter_event(&delta("long", 0, &long), filter);
        assert_eq!(
            items,
            [StreamItem::Reasoning(format!("{}…", "é".repeat(MAX_REASONING_SUMMARY_CHARS)))]
        );
        assert!(stream.filter_event(&delta("long", 0, &long), filter).is_empty());
        let completed = json(&format!(
            r#"{{"method":"item/completed", "params":{{"item":{{
                "id":"long", "type":"reasoning", "summary":["{long}"]}}}}}}"#
        ));
        assert!(stream.filter_event(&completed, filter).is_empty());
        let entry = stream
            .summaries
            .iter()
            .find(|entry| entry.id == "long" && entry.index == 0)
            .unwrap();
        assert!(entry.summary.text.len() <= MAX_REASONING_SUMMARY_CHARS + 1);
    }
}

#[test]
fn command_starts_follow_pending_context_without_duplicate_completion_chatter() {
    for filter in [StreamFilter::Activity, StreamFilter::Reasoning, StreamFilter::Full] {
        let mut stream = CodexStream::new();
        stream.filter_event(&delta("r1", 0, "Running the integration checks."), filter);
        let started = json(
            r#"{"method":"item/started", "params":{"item":{
                "type":"commandExecution", "id":"cmd1", "command":"cargo test"}}}"#,
        );
        let mut expected = Vec::new();
        if filter.includes_reasoning() {
            expected.push(StreamItem::Reasoning("Running the integration checks.".to_owned()));
        }
        expected.push(StreamItem::Tool("Shell: cargo test".to_owned()));
        assert_eq!(stream.filter_event(&started, filter), expected);
        assert!(stream.filter_event(&started, filter).is_empty());
        let completed = json(
            r#"{"method":"item/completed", "params":{"item":{
                "type":"commandExecution", "id":"cmd1", "command":"cargo test", "exitCode":1,
                "status":"completed", "aggregatedOutput":"a test failed"}}}"#,
        );
        let mut expected = vec![StreamItem::Tool("Shell exited with code 1".to_owned())];
        if filter == StreamFilter::Full {
            expected.push(StreamItem::ToolResult("a test failed".to_owned()));
        }
        assert_eq!(stream.filter_event(&completed, filter), expected);
    }
}

#[test]
fn turns_a_project_slash_skill_into_explicit_codex_input() {
    let prompt = "/propose-unattended plan slice\n\nprotocol";
    let (name, rest) = slash_command(prompt).unwrap();
    assert_eq!(name, "propose-unattended");
    assert_eq!(rest, "plan slice\n\nprotocol");
    let paths = slash_skill_paths("/repo", &name, &harness());
    assert!(paths.iter().any(|p| p == "/repo/.agent/skills/propose-unattended/SKILL.md"));
    let input = codex_turn_input(prompt, &SlashSource::Skill(paths[0].clone()));
    let input = wire(&input);
    assert_eq!(input[0]["type"], "skill");
    assert_eq!(input[0]["name"], "propose-unattended");
    assert_eq!(input[1]["text"], "plan slice\n\nprotocol");
}

#[test]
fn shares_configuration_and_live_credentials_but_not_session_state() {
    let home = IsolatedCodexHome::new("/home/me/.codex");
    let entries: Vec<String> = [
        "config.toml",
        "auth.json",
        "worker.config.toml",
        "AGENTS.md",
        "skills",
        "state_5.sqlite",
        "history.jsonl",
        "sessions",
    ]
    .iter()
    .map(|s| s.to_string())
    .collect();
    let shared = home.shared(&entries);
    for name in ["config.toml", "auth.json", "worker.config.toml", "AGENTS.md", "skills"] {
        assert!(shared.iter().any(|s| s == name), "{name}");
    }
    for name in ["sessions", "state_5.sqlite", "history.jsonl"] {
        assert!(!shared.iter().any(|s| s == name), "{name}");
    }
    assert_eq!(
        link_shared("/a/config.toml", "/b/config.toml", Some("/a/config.toml"), true).unwrap(),
        LinkAction::Keep
    );
    assert_eq!(
        link_shared("/a/config.toml", "/b/config.toml", None, false).unwrap(),
        LinkAction::Create
    );
}

#[test]
fn does_not_overwrite_existing_private_configuration() {
    let error = link_shared("/a/config.toml", "/b/config.toml", None, true).unwrap_err();
    assert!(error.message.contains("refusing to replace"));
    let error = link_shared("/a/config.toml", "/b/config.toml", Some("/c"), true).unwrap_err();
    assert!(error.message.contains("refusing to replace `/b/config.toml`"));
}

#[test]
fn imports_only_requested_rollout_and_never_overwrites_resumed_history() {
    let id = "0f8fad5b-d9cb-469f-a165-70867728950e";
    let other = "7c9e6679-7425-40de-944b-e07fc1f90ae7";
    let rollout = format!("rollout-2026-09-22T12-00-00-{id}.jsonl");
    let sessions = vec!["unrelated.jsonl".to_owned(), rollout.clone()];
    assert!(import_session(other, &sessions, &vec![]).is_none());
    assert!(import_session("../bad", &sessions, &vec![]).is_none());
    assert_eq!(import_session(id, &sessions, &vec![]), Some((false, 1)));
    assert_eq!(import_session(id, &vec![], &vec![rollout]), Some((true, 0)));
    let home = IsolatedCodexHome::new("/home/me/.codex");
    assert!(home.import_target("2026/09/22/x.jsonl").starts_with(&home.path));
}

#[test]
fn planning_session_is_resolved_before_a_failed_turn() {
    let error = CodexRequestError {
        method: "thread/resume".to_owned(),
        error: json(
            r#"{"code":-32600,"message":"no rollout found for thread id missing-thread"}"#,
        ),
    };
    assert!(error.is_missing_thread("missing-thread"));
    let stale = SessionMode::Resume { id: SessionId::new("missing-thread") };
    let (warning, replacement) = after_resume(&stale, &error).unwrap();
    assert_eq!(
        warning,
        "Codex planning thread `missing-thread` has no saved rollout; continuing the same phase in a fresh thread from repository state"
    );
    assert!(matches!(
        replacement,
        SessionMode::New { id, name: Some(name) }
            if id.as_str() == "missing-thread" && name == "opsx-build-planning"
    ));
    let fresh = SessionMode::New { id: SessionId::new("missing-thread"), name: None };
    assert!(after_resume(&fresh, &error).is_none());
    let launcher = CodexLauncher::from_connection(
        &AgentConnection {
            permission_profile: Some("build-permissions".to_owned()),
            ..connection()
        },
        &vec![],
        Some("/home/me"),
        &harness(),
    )
    .unwrap();
    let start = wire(&start_thread_params(&launcher, "/work", "auto", &vec![], false).unwrap());
    assert_eq!(start["config"]["default_permissions"], "build-permissions");
    assert_eq!(start["cwd"], "/work");
    assert!(start.get("sandbox").is_none());
    assert_eq!(start["ephemeral"], false);
    let resume = wire(
        &resume_thread_params(&launcher, "/work", "auto", "actual-thread", &vec![]).unwrap(),
    );
    assert_eq!(resume["threadId"], "actual-thread");
    assert_eq!(resume["config"]["default_permissions"], "build-permissions");
    let turn = wire(&start_turn_params(
        "actual-thread",
        codex_turn_input("continue", &SlashSource::Missing),
        None,
        None,
        None,
    ));
    assert_eq!(turn["threadId"], "actual-thread");
}

#[test]
fn planning_resume_does_not_replace_threads_for_other_errors() {
    for (code, message) in [
        (-32600, "invalid permission profile"),
        (-32603, "authentication failed"),
        (-32600, "no rollout found for thread id another-thread"),
        (-32603, "no rollout found for thread id missing-thread"),
    ] {
        let error = CodexRequestError {
            method: "thread/resume".to_owned(),
            error: json(&format!(r#"{{"code":{code},"message":"{message}"}}"#)),
        };
        assert!(!error.is_missing_thread("missing-thread"), "{code} {message}");
        let stale = SessionMode::Resume { id: SessionId::new("missing-thread") };
        assert!(after_resume(&stale, &error).is_none());
        assert!(error.message().contains(message));
    }
}

#[test]
fn requests_take_one_line_each() {
    let params = json(r#"{"text":"a\nb\"c","list":[true,null,7],"none":{}}"#);
    assert_eq!(
        request_line(3, "turn/start", params),
        "{\"id\":3,\"method\":\"turn/start\",\"params\":{\"list\":[true,null,7],\"none\":{},\"text\":\"a\\nb\\\"c\"}}\n"
    );
}

#[test]
fn initializes_starts_names_and_compacts_over_json_lines() {
    let line: Value =
        serde_json::from_str(&request_line(1, "initialize", initialize_params("1.0"))).unwrap();
    assert_eq!(line["id"], 1);
    assert_eq!(line["method"], "initialize");
    assert_eq!(line["params"]["clientInfo"]["version"], "1.0");
    let note: Value =
        serde_json::from_str(&notification_line("initialized", Json::Object(vec![]))).unwrap();
    assert_eq!(note["method"], "initialized");
    assert!(note.get("id").is_none());

    let reply = sort_message(
        json(r#"{"id":2,"result":{"thread":{"id":"thread-1"},"model":"test"}}"#),
        2,
        "thread/start",
    );
    let thread = match reply {
        Reply::Result(value) => started_thread(&value).unwrap(),
        other => panic!("expected a result, got {other:?}"),
    };
    assert_eq!(thread, "thread-1");
    assert_eq!(wire(&rename_thread_params("thread-1", "slice"))["name"], "slice");
    let event = json(
        r#"{"method":"thread/compacted","params":{"threadId":"thread-1","turnId":"compact-1"}}"#,
    );
    assert!(matches!(sort_message(json(r#"{"method":"x"}"#), 4, "m"), Reply::Deferred(_)));
    assert!(confirms_compaction(&event, "thread-1"));
    assert!(!confirms_compaction(&event, "thread-2"));
    assert_eq!(wire(&compact_thread_params("thread-1"))["threadId"], "thread-1");
    assert!(matches!(
        sort_message(json(r#"{"id":5,"error":{"message":"no"}}"#), 5, "m"),
        Reply::Error(_)
    ));
    assert!(started_thread(&json("{}")).is_err());
    assert_eq!(thread_name(Some("slice"), false), Some("slice"));
    assert_eq!(thread_name(Some("slice"), true), None);
    let steer = wire(&steer_turn_params("t", "u", "hello"));
    assert_eq!(steer["threadId"], "t");
    assert!(timeout_message("thread/start").contains("thread/start"));
    assert!(exit_message("boom").contains("boom"));
    let mut active = ActiveThreads::new();
    assert!(!active.is_active("a"));
    active.remember("a");
    active.remember("a");
    assert!(active.is_active("a"));
    assert!(!active.is_active("b"));
}

#[test]
fn turn_failures_are_told_apart() {
    let error = classify_turn_error("Rate limit reached (429)");
    assert!(error.transient && !error.output_limit && !error.requires_user_turn);
    assert_eq!(error.message, "Codex turn failed: Rate limit reached (429)");
    assert!(classify_turn_error("MAX_OUTPUT_TOKENS").output_limit);
    assert!(
        classify_turn_error("Requests ending with a model turn are not supported")
            .requires_user_turn
    );
    let other = classify_turn_error("no such model");
    assert!(!other.transient && !other.output_limit);
}

#[test]
fn provider_retries_wait_longer_up_to_a_bound() {
    let delays: Vec<u64> = (1..=12).map(|n| provider_retry_delay(1000, n)).collect();
    assert_eq!(&delays[..3], &[1000, 2000, 4000]);
    assert!(delays.windows(2).all(|pair| pair[0] <= pair[1]));
    assert_eq!(delays[10], delays[11]);
    assert_eq!(provider_retry_delay(0, 9), 0);
}

#[test]
fn a_phase_recovers_from_trouble_a_bounded_number_of_times() {
    let limits = RetryLimits { output: 1, provider: 1, base_delay: 10 };
    let id = SessionId::new("thread-1");
    let trouble = || TurnOutcome::Failed(TurnError::Turn(classify_turn_error("overloaded")));
    let phase = begin_phase("do it", "Apply");
    let step = after_turn(&phase, trouble(), &id, "Apply", StageProtocol::Ready, limits, None);
    let next = match step {
        PhaseStep::Again(Between::WarnAndWait(_, wait), next) => {
            assert_eq!(wait, 10);
            next
        }
        other => panic!("expected another turn, got {other:?}"),
    };
    assert_eq!(next.provider_retries, 1);
    assert!(matches!(
        after_turn(&next, trouble(), &id, "Apply", StageProtocol::Ready, limits, None),
        PhaseStep::Failed(_)
    ));
}

#[test]
fn a_turn_ends_with_the_text_of_its_agent() {
    let id = SessionId::new("thread-1");
    let mut state = TurnState::new();
    let message = json(
        r#"{"method":"item/completed","params":{"threadId":"thread-1","turnId":"turn-1","item":{
            "type":"agentMessage","id":"m","text":"{\"opsx_status\":\"READY\",\"summary\":\"fine\"}"}}}"#,
    );
    let step = state.on_event(&message, &id, "turn-1", None);
    assert!(step.outcome.is_none());
    let over = json(
        r#"{"method":"turn/completed","params":{"threadId":"thread-1",
            "turn":{"id":"turn-1","status":"completed"}}}"#,
    );
    let step = state.on_event(&over, &id, "turn-1", None);
    match step.outcome {
        Some(TurnOutcome::Complete(result)) => {
            assert_eq!(result.signal, StageSignal::Ready);
            assert_eq!(result.text, "fine");
        }
        other => panic!("expected a result, got {other:?}"),
    }
}

#[test]
fn a_viewer_interrupts_one_thing_at_a_time() {
    assert!(matches!(on_control(None, StreamControl::Idle), ControlStep::Ignore));
    assert!(matches!(
        on_control(None, StreamControl::Compact),
        ControlStep::Interrupt(Pending::Compact, _)
    ));
    assert!(matches!(
        on_control(Some(Pending::Compact), StreamControl::Compact),
        ControlStep::Warn(_) | ControlStep::Ignore
    ));
    assert!(matches!(
        on_control(None, StreamControl::Inject("hello".to_owned())),
        ControlStep::Steer(text) if text == "hello"
    ));
    assert!(timed_out(Some(10), 10) && !timed_out(Some(10), 9) && !timed_out(None, 99));
}

#[test]
fn a_second_preparation_of_the_home_changes_nothing() {
    let home = IsolatedCodexHome::new("/me/.codex");
    let entries = vec!["skills".to_owned(), "x.config.toml".to_owned(), "sessions".to_owned()];
    let (links, refusal) = home.prepare(&entries, &vec![]);
    assert_eq!(links, ["config.toml", "auth.json", "skills", "x.config.toml"]);
    assert!(refusal.is_none());
    let mut places: Vec<Place> = links
        .iter()
        .map(|name| Place { name: name.clone(), link: Some(format!("/me/.codex/{name}")) })
        .collect();
    let (links, refusal) = home.prepare(&entries, &places);
    assert!(links.is_empty() && refusal.is_none());
    places[2].link = Some("/elsewhere/skills".to_owned());
    places.remove(1);
    let (links, refusal) = home.prepare(&entries, &places);
    assert_eq!(links, ["auth.json"]);
    assert!(refusal
        .unwrap()
        .message
        .starts_with("refusing to replace `/me/.codex/opsx-build/skills`"));
}

#[test]
fn sessions_are_named_by_identifiers() {
    let names = |id: &str| vec![format!("rollout-x-{id}.jsonl")];
    let plain = "67e55044-10b1-426f-9247-bb680e5fe0c8";
    for id in [
        plain.to_owned(),
        plain.to_uppercase(),
        plain.replace('-', ""),
        format!("{{{plain}}}"),
        format!("URN:uuid:{plain}"),
    ] {
        assert_eq!(import_session(&id, &names(&id), &vec![]), Some((false, 0)), "{id}");
    }
    for id in [
        "67e55044-10b1-426f-9247-bb680e5fe0cg",
        "67e5504410b1-426f-9247-bb680e5fe0c8-",
        "67e5504410b1426f9247bb680e5fe0c",
        "(67e55044-10b1-426f-9247-bb680e5fe0c8)",
        "urn:oid::67e55044-10b1-426f-9247-bb680e5fe0c8",
        "é7e5504410b1426f9247bb680e5fe0c8",
    ] {
        assert_eq!(import_session(id, &names(id), &vec![]), None, "{id}");
    }
}

#[test]
fn permission_modes_without_a_mapping_are_named() {
    assert_eq!(
        codex_permissions("mystery", &harness()).unwrap_err().message,
        "Agent permission mode `mystery` has no Codex mapping; use auto, acceptEdits, default, dontAsk, plan, or bypassPermissions"
    );
}
