use opsx_build::backend::{parse_status_value, SessionId, SessionMode, StageProtocol, StageSignal};
use opsx_build::claude_agent::{
    after_attempt, assistant_texts, build_claude_command, build_compact_command,
    build_connection_test_command, build_interactive_claude_command, output_hit_token_limit,
    output_limit_continuation_prompt, parse_claude_output, parse_claude_stream_output,
    parse_connection_test_output, parse_lines, parse_signal, resolve_bundled_command, AttemptStep,
    ClaudeClient, ClaudeLauncher, ClaudeOutputFormat, AUTO_COMPACT_ENV, AUTO_COMPACT_PERCENT_ENV,
    CONNECTION_TEST_MARKER, MAX_OUTPUT_TOKENS_ENV,
};
use opsx_build::cli::{
    AgentConnection, BackendKind, ConnectionEnvironmentValue, EnvironmentReference,
};
use opsx_build::names::Harness;
use opsx_build::process::ProcessOutput;
use opsx_build::prompts::stage_prompt;

fn harness() -> Harness {
    Harness { title: "Agent".to_owned(), name: "agent".to_owned() }
}

const NIL: &str = "00000000-0000-0000-0000-000000000000";

fn output(success: bool, stdout: &str) -> ProcessOutput {
    ProcessOutput {
        success,
        code: Some(if success { 0 } else { 1 }),
        stdout: stdout.to_owned(),
        stderr: String::new(),
    }
}

fn connection() -> AgentConnection {
    AgentConnection {
        name: Some("hosted".to_owned()),
        backend: BackendKind::Claude,
        environment_name: Some("provider".to_owned()),
        command: "agent".to_owned(),
        model: None,
        permission_profile: None,
        structured_output: true,
        context_window: None,
        auto_compact_window: None,
        auto_compact_percent: None,
        max_output_tokens: None,
        env: vec![],
        isolate: true,
        unset_env: vec![],
    }
}

fn limits() -> Vec<(String, String)> {
    vec![
        (AUTO_COMPACT_ENV.to_owned(), "196608".to_owned()),
        (AUTO_COMPACT_PERCENT_ENV.to_owned(), "75".to_owned()),
        (MAX_OUTPUT_TOKENS_ENV.to_owned(), "8192".to_owned()),
    ]
}

#[test]
fn constructs_new_and_resumed_session_commands() {
    let id = SessionId::new(NIL);
    let launcher = ClaudeLauncher::parse(
        "omlx launch agent",
        Some("qwen3.6-35b-a3b".to_owned()),
        Some(196_608),
        Some(75),
        Some(8_192),
        &harness(),
    )
    .unwrap();
    let new = build_claude_command(
        "/repo",
        &launcher,
        "auto",
        &SessionMode::New { id: id.clone(), name: Some("slice-apply".to_owned()) },
        "/apply slice",
        ClaudeOutputFormat::Json,
        None,
    );
    assert_eq!(new.program, "omlx");
    assert_eq!(new.env, limits());
    assert_eq!(
        new.args,
        vec![
            "launch",
            "agent",
            "--model",
            "qwen3.6-35b-a3b",
            "--print",
            "--output-format",
            "json",
            "--permission-mode",
            "auto",
            "--session-id",
            "00000000-0000-0000-0000-000000000000",
            "--name",
            "slice-apply",
            "/apply slice",
        ]
    );

    let resumed = build_claude_command(
        "/repo",
        &launcher,
        "auto",
        &SessionMode::Resume { id: id.clone() },
        "/propose slice",
        ClaudeOutputFormat::Json,
        None,
    );
    assert!(resumed
        .args
        .windows(2)
        .any(|args| args == ["--resume", "00000000-0000-0000-0000-000000000000"]));

    let compact =
        build_compact_command("/repo", &launcher, "auto", &id, ClaudeOutputFormat::Text);
    assert_eq!(compact.args.last().map(String::as_str), Some("/compact"));
    assert!(compact
        .args
        .windows(2)
        .any(|args| args == ["--resume", "00000000-0000-0000-0000-000000000000"]));
    assert!(!compact.args.iter().any(|arg| arg == "--output-format"));
    assert_eq!(compact.env, limits());

    let streamed_compact =
        build_compact_command("/repo", &launcher, "auto", &id, ClaudeOutputFormat::StreamJson);
    assert!(streamed_compact
        .args
        .windows(2)
        .any(|args| args == ["--output-format", "stream-json"]));
    assert!(!streamed_compact.accepts_stream_messages);

    let streamed = build_claude_command(
        "/repo",
        &launcher,
        "auto",
        &SessionMode::Resume { id },
        "/verify slice",
        ClaudeOutputFormat::StreamJson,
        None,
    );
    assert!(streamed
        .args
        .windows(2)
        .any(|args| args == ["--output-format", "stream-json"]));
    assert!(streamed
        .args
        .windows(2)
        .any(|args| args == ["--input-format", "stream-json"]));
    assert!(!streamed.args.iter().any(|arg| arg == "/verify slice"));
    let input = streamed.initial_stdin.as_deref().unwrap().trim();
    let input: serde_json::Value = serde_json::from_str(input).unwrap();
    assert_eq!(input["type"], "user");
    assert_eq!(input["message"]["content"][0]["text"], "/verify slice");
    assert!(streamed.accepts_stream_messages);
    assert!(streamed.args.iter().any(|arg| arg == "--verbose"));
    assert!(streamed.args.iter().any(|arg| arg == "--forward-subagent-text"));
}

#[test]
fn parses_quoted_launcher_without_a_shell() {
    let launcher = ClaudeLauncher::parse(
        r#"'/Applications/oMLX Preview.app/omlx' launch "agent code""#,
        None,
        None,
        None,
        None,
        &harness(),
    )
    .unwrap();
    assert_eq!(launcher.program, "/Applications/oMLX Preview.app/omlx");
    assert_eq!(launcher.prefix_args, ["launch", "agent code"]);
    assert!(ClaudeLauncher::parse("omlx 'unterminated", None, None, None, None, &harness()).is_err());
}

#[test]
fn resolves_an_isolated_named_connection_into_commands() {
    let connection = AgentConnection {
        model: Some("provider/model".to_owned()),
        max_output_tokens: Some(4_096),
        env: vec![
            (
                "ANTHROPIC_AUTH_TOKEN".to_owned(),
                ConnectionEnvironmentValue::Literal("secret-token".to_owned()),
            ),
            (
                "ANTHROPIC_BASE_URL".to_owned(),
                ConnectionEnvironmentValue::Literal(
                    "https://provider.example/anthropic".to_owned(),
                ),
            ),
        ],
        unset_env: vec!["HTTP_PROXY".to_owned()],
        ..connection()
    };
    let launcher = ClaudeLauncher::from_connection(&connection, &vec![], &harness()).unwrap();
    let command = build_claude_command(
        "/repo",
        &launcher,
        "auto",
        &SessionMode::New { id: SessionId::new(NIL), name: None },
        "plan",
        ClaudeOutputFormat::Json,
        None,
    );

    assert_eq!(launcher.connection_name.as_deref(), Some("hosted"));
    assert_eq!(launcher.environment_name.as_deref(), Some("provider"));
    assert!(launcher.unset_environment.iter().any(|name| name == "ANTHROPIC_API_KEY"));
    assert!(launcher.unset_environment.iter().any(|name| name == "HTTP_PROXY"));
    assert!(command.display().contains("ANTHROPIC_AUTH_TOKEN=<redacted>"));
    assert!(!command.display().contains("secret-token"));
    assert!(command
        .args
        .windows(2)
        .any(|args| args == ["--model", "provider/model"]));
}

#[test]
fn reports_a_missing_referenced_connection_environment_variable() {
    let connection = AgentConnection {
        env: vec![(
            "ANTHROPIC_AUTH_TOKEN".to_owned(),
            ConnectionEnvironmentValue::FromEnvironment(EnvironmentReference {
                from_env: "OPSX_BUILD_TEST_DEFINITELY_MISSING_PROFILE_SECRET_7F9C".to_owned(),
            }),
        )],
        ..connection()
    };
    let error = ClaudeLauncher::from_connection(&connection, &vec![], &harness()).unwrap_err();

    assert!(error.message.contains("connection profile `hosted`"));
    assert!(error
        .message
        .contains("OPSX_BUILD_TEST_DEFINITELY_MISSING_PROFILE_SECRET_7F9C"));
}

#[test]
fn bundled_commands_have_stable_defaults_and_allow_overrides() {
    assert_eq!(
        resolve_bundled_command(None, "explore-unattended"),
        "/explore-unattended"
    );
    assert_eq!(
        resolve_bundled_command(Some("custom-propose"), "propose-unattended"),
        "/custom-propose"
    );
}

#[test]
fn constructs_interactive_command_without_print_mode() {
    let launcher = ClaudeLauncher::parse(
        "omlx launch agent",
        Some("local-model".to_owned()),
        Some(196_608),
        Some(75),
        Some(8_192),
        &harness(),
    )
    .unwrap();
    let command = build_interactive_claude_command(
        "/repo",
        &launcher,
        "manual",
        &vec!["--effort".to_owned(), "xhigh".to_owned()],
        Some("inspect this project"),
    );

    assert_eq!(
        command.args,
        [
            "launch",
            "agent",
            "--model",
            "local-model",
            "--permission-mode",
            "manual",
            "--effort",
            "xhigh",
            "inspect this project",
        ]
    );
    assert!(!command.args.iter().any(|arg| arg == "--print"));
    assert_eq!(command.env, limits());
}

#[test]
fn constructs_a_minimal_non_persistent_connection_test() {
    let launcher =
        ClaudeLauncher::parse("omlx launch agent", Some("test-model".to_owned()), None, None, None, &harness())
            .unwrap();
    let command = build_connection_test_command("/repo", &launcher, "auto");

    assert_eq!(command.program, "omlx");
    assert!(command.args.windows(2).any(|args| args == ["--model", "test-model"]));
    assert!(command.args.iter().any(|arg| arg == "--print"));
    assert!(command.args.iter().any(|arg| arg == "--no-session-persistence"));
    assert!(command
        .args
        .last()
        .is_some_and(|prompt| prompt.contains(CONNECTION_TEST_MARKER)));
    assert!(!command.args.iter().any(|arg| arg == "--session-id"));
    assert!(!command.accepts_stream_messages);
}

#[test]
fn parses_a_machine_readable_connection_test_response() {
    let answered = output(
        true,
        &format!(r#"{{"is_error":false,"result":"{CONNECTION_TEST_MARKER}"}}"#),
    );
    assert_eq!(
        parse_connection_test_output(&answered, &harness()).unwrap(),
        CONNECTION_TEST_MARKER
    );

    let error = output(true, r#"{"is_error":true,"result":"authentication failed"}"#);
    assert!(parse_connection_test_output(&error, &harness())
        .unwrap_err()
        .message
        .contains("authentication failed"));
}

#[test]
fn adds_stage_schema_to_unattended_command() {
    let launcher = ClaudeLauncher::parse("agent", None, None, None, None, &harness()).unwrap();
    let schema = StageProtocol::Verify.json_schema();
    let command = build_claude_command(
        "/repo",
        &launcher,
        "auto",
        &SessionMode::New { id: SessionId::new(NIL), name: None },
        "verify",
        ClaudeOutputFormat::Json,
        Some(schema),
    );
    assert!(command.args.windows(2).any(|args| args == ["--json-schema", schema]));
}

#[test]
fn worker_protocol_accepts_too_large_without_weakening_strict_stages() {
    let schema = StageProtocol::Worker.json_schema();
    assert!(schema.contains(r#"["READY","TOO_LARGE","BLOCKED"]"#));
    assert!(!StageProtocol::Ready.json_schema().contains("TOO_LARGE"));
    assert!(!StageProtocol::Verify.json_schema().contains("TOO_LARGE"));
    let prompt = stage_prompt("/explore-unattended", "inspect it", StageProtocol::Worker);
    assert!(prompt.contains("READY, TOO_LARGE, or BLOCKED"));
}

#[test]
fn proposal_protocol_accepts_done_and_too_large_without_weakening_other_stages() {
    let schema = StageProtocol::Propose.json_schema();
    assert!(schema.contains(r#"["READY","DONE","TOO_LARGE","BLOCKED"]"#));
    assert!(!StageProtocol::Ready.json_schema().contains("DONE"));
    let prompt = stage_prompt("/propose-unattended", "finish it", StageProtocol::Propose);
    assert!(prompt.contains("READY, DONE, TOO_LARGE, or BLOCKED"));
}

#[test]
fn frontier_protocol_accepts_only_replanned_or_blocked() {
    let schema = StageProtocol::Frontier.json_schema();
    assert!(schema.contains(r#"["REPLANNED","BLOCKED"]"#));
    assert!(!schema.contains("READY"));
    assert_eq!(parse_status_value("replanned"), Some(StageSignal::Replanned));
    let prompt = stage_prompt("", "subdivide it", StageProtocol::Frontier);
    assert!(prompt.contains("REPLANNED or BLOCKED"));
}

#[test]
fn parses_terminal_markers_from_last_matching_line() {
    assert_eq!(
        parse_signal("details\nOPSX_STATUS: RETRY"),
        Some(StageSignal::Retry)
    );
    assert_eq!(
        parse_signal("OPSX_STATUS: READY\nmore\nOPSX_STATUS: BLOCKED"),
        Some(StageSignal::Blocked)
    );
    assert_eq!(parse_signal("ordinary prose"), None);
    assert_eq!(
        parse_signal("No work remains\nOPSX_STATUS: DONE"),
        Some(StageSignal::Done)
    );
    assert_eq!(
        parse_signal("Needs decomposition\nOPSX_STATUS: TOO_LARGE"),
        Some(StageSignal::TooLarge)
    );
    assert_eq!(parse_signal("OPSX_STATUS: NOT_DONE"), None);
    assert_eq!(parse_signal("`OPSX_STATUS: DONE`"), None);
    assert_eq!(
        parse_signal("OSPX_STATUS: READY"),
        Some(StageSignal::Ready),
        "legacy status spelling remains readable"
    );
}

#[test]
fn parses_terminal_result_from_a_jsonl_stream() {
    let stdout = "{\"type\":\"system\",\"subtype\":\"init\"}\n\
        {\"type\":\"assistant\",\"message\":{\"content\":[{\"type\":\"text\",\"text\":\"Working\"}]}}\n\
        {\"type\":\"result\",\"subtype\":\"success\",\"session_id\":\"session-1\",\"result\":\"Done\\nOPSX_STATUS: VERIFIED\"}\n";
    let parsed = parse_claude_stream_output(stdout, &harness()).unwrap();
    assert_eq!(parsed.signal, StageSignal::Verified);
    assert_eq!(parsed.session_id.as_deref(), Some("session-1"));
}

#[test]
fn parses_structured_result_without_terminal_marker() {
    let stdout = r#"{"type":"result","subtype":"success","session_id":"session-2","result":"{\"opsx_status\":\"READY\",\"summary\":\"Proposal complete\"}","structured_output":{"opsx_status":"READY","summary":"Proposal complete"}}"#;
    let parsed = parse_claude_output(stdout, &harness()).unwrap();
    assert_eq!(parsed.signal, StageSignal::Ready);
    assert_eq!(parsed.text, "Proposal complete");
    assert_eq!(parsed.session_id.as_deref(), Some("session-2"));
}

#[test]
fn parses_structured_done_result() {
    let stdout = r#"{"type":"result","subtype":"success","session_id":"session-done","result":"structured response","structured_output":{"opsx_status":"DONE","summary":"No remaining slice"}}"#;
    let parsed = parse_claude_output(stdout, &harness()).unwrap();
    assert_eq!(parsed.signal, StageSignal::Done);
    assert_eq!(parsed.text, "No remaining slice");
}

#[test]
fn parses_structured_too_large_result() {
    let stdout = r#"{"type":"result","subtype":"success","session_id":"session-large","result":"structured response","structured_output":{"opsx_status":"TOO_LARGE","summary":"Split parser and backend work"}}"#;
    let parsed = parse_claude_output(stdout, &harness()).unwrap();
    assert_eq!(parsed.signal, StageSignal::TooLarge);
    assert_eq!(parsed.text, "Split parser and backend work");
}

#[test]
fn parses_legacy_structured_status_spelling() {
    let stdout = r#"{"type":"result","subtype":"success","session_id":"legacy","result":"structured response","structured_output":{"ospx_status":"READY","summary":"Compatible"}}"#;
    let parsed = parse_claude_output(stdout, &harness()).unwrap();
    assert_eq!(parsed.signal, StageSignal::Ready);
    assert_eq!(parsed.text, "Compatible");
}

#[test]
fn parses_structured_result_from_jsonl_stream() {
    let stdout = "{\"type\":\"system\",\"subtype\":\"init\"}\n\
        {\"type\":\"result\",\"subtype\":\"success\",\"session_id\":\"session-3\",\"result\":\"structured response\",\"structured_output\":{\"opsx_status\":\"VERIFIED\",\"summary\":\"Checks passed\"}}\n";
    let parsed = parse_claude_stream_output(stdout, &harness()).unwrap();
    assert_eq!(parsed.signal, StageSignal::Verified);
    assert_eq!(parsed.text, "Checks passed");
    assert_eq!(parsed.session_id.as_deref(), Some("session-3"));
}

#[test]
fn ignores_a_later_compact_result_when_parsing_the_stage_result() {
    let stdout = "{\"type\":\"result\",\"subtype\":\"success\",\"session_id\":\"session-4\",\"result\":\"stage response\",\"structured_output\":{\"opsx_status\":\"READY\",\"summary\":\"Proposal complete\"}}\n\
        {\"type\":\"system\",\"subtype\":\"compact_boundary\",\"compact_metadata\":{\"trigger\":\"manual\",\"pre_tokens\":24000}}\n\
        {\"type\":\"result\",\"subtype\":\"success\",\"session_id\":\"session-4\",\"result\":\"Compacted\",\"structured_output\":null}\n";
    let parsed = parse_claude_stream_output(stdout, &harness()).unwrap();
    assert_eq!(parsed.signal, StageSignal::Ready);
    assert_eq!(parsed.text, "Proposal complete");
    assert_eq!(parsed.session_id.as_deref(), Some("session-4"));
}

#[test]
fn detects_success_result_that_stopped_at_the_output_limit() {
    assert!(output_hit_token_limit(&output(
        true,
        r#"{"type":"result","subtype":"success","stop_reason":"max_tokens","session_id":"session-5","result":"unfinished"}"#,
    )));
}

#[test]
fn detects_max_output_token_api_failures() {
    assert!(output_hit_token_limit(&output(
        false,
        r#"{"type":"result","subtype":"error_during_execution","is_error":true,"errors":["max_output_tokens"],"session_id":"session-6"}"#,
    )));
}

#[test]
fn detects_claude_codes_configured_output_maximum_error() {
    assert!(output_hit_token_limit(&output(
        false,
        r#"{"is_error":true,"stop_reason":"stop_sequence","subtype":"success","result":"API Error: The response exceeded the 64 output token maximum. To configure this behavior, set the CLAUDE_CODE_MAX_OUTPUT_TOKENS environment variable."}"#,
    )));
}

#[test]
fn does_not_retry_a_recovered_api_limit_after_a_terminal_result() {
    assert!(!output_hit_token_limit(&output(
        true,
        "{\"type\":\"system\",\"subtype\":\"api_retry\",\"error\":\"max_output_tokens\"}\n\
        {\"type\":\"result\",\"subtype\":\"success\",\"stop_reason\":\"end_turn\",\"structured_output\":{\"opsx_status\":\"READY\",\"summary\":\"done\"}}\n",
    )));
}

#[test]
fn retries_when_an_injected_turn_hits_the_limit_after_a_stage_result() {
    assert!(output_hit_token_limit(&output(
        true,
        "{\"type\":\"result\",\"subtype\":\"success\",\"structured_output\":{\"opsx_status\":\"READY\",\"summary\":\"initial turn\"}}\n\
        {\"type\":\"result\",\"subtype\":\"success\",\"stop_reason\":\"max_tokens\",\"result\":\"unfinished follow-up\"}\n",
    )));
}

#[test]
fn continuation_prompt_preserves_the_stage_protocol() {
    let prompt = output_limit_continuation_prompt(StageProtocol::Verify, &harness());
    assert!(prompt.contains("Continue the same phase"));
    assert!(prompt.contains("VERIFIED, RETRY, or BLOCKED"));
}

#[test]
fn output_limit_recovery_compacts_and_resumes_the_same_session() {
    let launcher = ClaudeLauncher::parse("sh", None, None, None, None, &harness()).unwrap();
    let names = harness();
    let client = ClaudeClient::new("/repo", &launcher, "auto", false, None, 3, &names);
    let invocation = client.begin(
        SessionMode::New { id: SessionId::new(NIL), name: None },
        "do the work",
        "Fake agent stage",
    );

    let unfinished = output(
        true,
        r#"{"is_error":false,"stop_reason":"max_tokens","session_id":"00000000-0000-0000-0000-000000000000","result":"unfinished"}"#,
    );
    assert!(matches!(
        after_attempt(client.first_attempt(), &unfinished, &harness()),
        AttemptStep::OutputLimit
    ));
    let (warning, next) = client
        .after_output_limit(&invocation, "Fake agent stage", StageProtocol::Ready)
        .unwrap();
    assert!(warning.contains("1/3") || warning.contains("1 of 3"), "{warning}");
    let id = SessionId::new(NIL);
    assert_eq!(client.compaction(&id).args.last().map(String::as_str), Some("/compact"));
    assert!(matches!(&next.session, SessionMode::Resume { id } if id.as_str() == NIL));
    assert_eq!(next.recoveries, 1);

    let finished = output(
        true,
        r#"{"is_error":false,"stop_reason":"end_turn","session_id":"00000000-0000-0000-0000-000000000000","result":"done","structured_output":{"opsx_status":"READY","summary":"continued successfully"}}"#,
    );
    let result = match after_attempt(client.first_attempt(), &finished, &harness()) {
        AttemptStep::Complete(result) => result,
        other => panic!("expected a result, got {other:?}"),
    };
    assert_eq!(result.signal, StageSignal::Ready);
    assert_eq!(result.text, "continued successfully");
}

#[test]
fn what_the_harness_is_called_is_said_everywhere() {
    let named = Harness { title: "Helper".to_owned(), name: "helper".to_owned() };
    assert_eq!(named.directory(), ".helper");
    assert_eq!(named.guide(), "HELPER.md");
    assert_eq!(
        ClaudeLauncher::parse("  ", None, None, None, None, &named).unwrap_err().message,
        "--helper-command cannot be empty"
    );
    assert_eq!(
        ClaudeLauncher::parse("run \\", None, None, None, None, &named).unwrap_err().message,
        "--helper-command ends with an incomplete escape"
    );
    assert_eq!(
        parse_claude_output(r#"{"is_error":true,"result":"no"}"#, &named).unwrap_err().message,
        "Helper reported an error: no"
    );
    assert_eq!(
        parse_claude_stream_output(r#"{"type":"result","result":"no"}"#, &named)
            .unwrap_err()
            .message,
        "Helper stream results contained neither structured `opsx_status` output nor an `OPSX_STATUS` terminal marker; rerun with --stream-helper=raw to inspect them"
    );
    assert!(output_limit_continuation_prompt(StageProtocol::Ready, &named)
        .starts_with("The preceding Helper turn reached its output token limit"));
}

#[test]
fn prompts_list_the_words_that_schemas_enumerate() {
    for (protocol, words) in [
        (StageProtocol::Ready, vec!["READY", "BLOCKED"]),
        (StageProtocol::Worker, vec!["READY", "TOO_LARGE", "BLOCKED"]),
        (StageProtocol::Propose, vec!["READY", "DONE", "TOO_LARGE", "BLOCKED"]),
        (StageProtocol::Verify, vec!["VERIFIED", "RETRY", "BLOCKED"]),
        (StageProtocol::Frontier, vec!["REPLANNED", "BLOCKED"]),
        (StageProtocol::TerminalReview, vec!["READY", "REPLANNED", "BLOCKED"]),
    ] {
        let listed: Vec<&str> = protocol
            .terminal_values()
            .split(|c: char| c != '_' && !c.is_ascii_uppercase())
            .filter(|word| !word.is_empty())
            .collect();
        assert_eq!(listed, words);
        let schema: serde_json::Value = serde_json::from_str(protocol.json_schema()).unwrap();
        assert_eq!(schema["properties"]["opsx_status"]["enum"], serde_json::Value::from(words.clone()));
        for word in words {
            assert!(parse_status_value(word).is_some());
        }
    }
}

#[test]
fn messages_of_the_agent_are_shown_by_their_texts() {
    let lines = [
        r#"{"type":"assistant","message":{"content":[{"text":"one"},{"tool":"x"},{"text":"two"}]}}"#,
        r#"{"type":"user","message":{"content":[{"text":"three"}]}}"#,
        r#"{"type":"assistant","message":{"content":"four"}}"#,
    ]
    .join("\n");
    let shown: Vec<Vec<String>> = parse_lines(&lines).iter().map(assistant_texts).collect();
    assert_eq!(shown, [vec!["one".to_owned(), "two".to_owned()], vec![], vec![]]);
}
