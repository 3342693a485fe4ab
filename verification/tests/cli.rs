use opsx_build::cli::{
    config_path_under, config_source, default_config_root, parse_bootstrap_defines,
    parse_percentage, parse_token_count, resolve_values, BackendKind, Cli, CliArgs, ConfigSource,
    ConnectionEnvironmentValue, EnvironmentReference, FileConfig, FileConnection, FileEnvironment,
    DEFAULT_LOCAL_WORKER_TIMEOUT_MINUTES, DEFAULT_MAX_OUTPUT_RETRIES, DEFAULT_MAX_PROVIDER_RETRIES,
    DEFAULT_MAX_VERIFY_RETRIES, DEFAULT_PERMISSION_MODE,
};
use opsx_build::failure::Failure;
use opsx_build::names::Harness;
use opsx_build::names::PROGRAM_NAME;
use opsx_build::stream::StreamFilter;

fn harness() -> Harness {
    Harness { title: "Agent".to_owned(), name: "agent".to_owned() }
}

const COMMAND: &str = "agent";

fn request(text: &str) -> CliArgs {
    CliArgs { request: Some(text.to_owned()), ..CliArgs::default() }
}

fn load(args: CliArgs) -> Result<Cli, Failure> {
    Cli::load(&args, &FileConfig::default(), None, &harness())
}

fn resolve(args: CliArgs, config: &FileConfig) -> Result<Cli, Failure> {
    resolve_values(&args, config, None, &harness())
}

fn text(value: &str) -> Option<String> {
    Some(value.to_owned())
}

fn literal(name: &str, value: &str) -> (String, ConnectionEnvironmentValue) {
    (name.to_owned(), ConnectionEnvironmentValue::Literal(value.to_owned()))
}

fn reference(name: &str, from: &str) -> (String, ConnectionEnvironmentValue) {
    (
        name.to_owned(),
        ConnectionEnvironmentValue::FromEnvironment(EnvironmentReference {
            from_env: from.to_owned(),
        }),
    )
}

fn value<'a>(
    env: &'a [(String, ConnectionEnvironmentValue)],
    name: &str,
) -> Option<&'a ConnectionEnvironmentValue> {
    env.iter().find(|(key, _)| key == name).map(|(_, value)| value)
}

#[test]
fn uses_the_corrected_program_name() {
    assert_eq!(PROGRAM_NAME, "opsx-build");
}

#[test]
fn resolves_a_bounded_sidecar_request() {
    let cli = load(CliArgs {
        no_config: true,
        sidecar: true,
        local_only: true,
        sidecar_root: text("/tmp/opsx-sidecars"),
        context: text("/tmp/ceph-change.md"),
        change: text("ceph-bounded-fix"),
        ..request("fix the bounded Ceph behaviour")
    })
    .unwrap();

    assert!(cli.sidecar);
    assert!(cli.local_only);
    assert_eq!(cli.sidecar_root.as_deref(), Some("/tmp/opsx-sidecars"));
    assert_eq!(cli.bootstrap_context.as_deref(), Some("/tmp/ceph-change.md"));
    assert_eq!(cli.change.as_deref(), Some("ceph-bounded-fix"));
    assert_eq!(cli.request, "fix the bounded Ceph behaviour");
}

#[test]
fn sidecar_requires_a_named_bounded_change() {
    let error = load(CliArgs {
        sidecar: true,
        context: text("/tmp/context.md"),
        dry_run: true,
        ..CliArgs::default()
    })
    .unwrap_err();
    assert!(error.message.contains("explicit bounded change request"));

    let error = load(CliArgs {
        sidecar: true,
        context: text("/tmp/context.md"),
        ..request("bounded request")
    })
    .unwrap_err();
    assert!(error.message.contains("requires --change NAME"));
}

#[test]
fn reads_sidecar_defaults_from_config() {
    let config = FileConfig {
        sidecar: Some(true),
        sidecar_root: text("/tmp/stores"),
        local_only: Some(true),
        ..FileConfig::default()
    };
    let args = CliArgs {
        context: text("/tmp/context.md"),
        change: text("ceph-fix"),
        ..request("bounded request")
    };
    let cli = Cli::load(&args, &config, text("config.toml"), &harness()).unwrap();

    assert!(cli.sidecar);
    assert!(cli.local_only);
    assert_eq!(cli.sidecar_root.as_deref(), Some("/tmp/stores"));
}

#[test]
fn canonical_config_path_falls_back_to_the_legacy_location() {
    assert_eq!(config_path_under("/conf", false, true), "/conf/ospx-build/config.toml");
    assert_eq!(config_path_under("/conf", true, true), "/conf/opsx-build/config.toml");
    assert_eq!(config_path_under("/conf", false, false), "/conf/opsx-build/config.toml");
}

#[test]
fn parses_toml_defaults() {
    let config = FileConfig {
        max_verify_retries: Some(5),
        max_output_retries: Some(7),
        max_provider_retries: Some(4),
        local_worker_timeout_minutes: Some(45),
        loop_workflow: Some(true),
        yolo: Some(true),
        max_iterations: Some(12),
        permission_mode: text("dontAsk"),
        claude_command: text("omlx launch agent"),
        claude_model: text("local-model"),
        frontier_command: text("frontier-wrapper agent"),
        frontier_model: text("frontier-model"),
        auto_compact_window: Some(parse_token_count("192k").unwrap()),
        auto_compact_percent: Some(parse_percentage("75%").unwrap()),
        max_output_tokens: Some(parse_token_count("8k").unwrap()),
        verify_command: text("/opsx:verify"),
        stream_claude: Some(StreamFilter::Full),
        ..FileConfig::default()
    };
    let cli = resolve(request("build something"), &config).unwrap();

    assert_eq!(cli.max_verify_retries, 5);
    assert_eq!(cli.max_output_retries, 7);
    assert_eq!(cli.max_provider_retries, 4);
    assert_eq!(cli.local_worker_timeout_minutes, 45);
    assert!(cli.loop_workflow);
    assert!(cli.yolo);
    assert_eq!(cli.max_iterations, Some(12));
    assert_eq!(cli.permission_mode, "dontAsk");
    assert_eq!(cli.worker_connection.command, "omlx launch agent");
    assert_eq!(cli.worker_connection.model.as_deref(), Some("local-model"));
    assert_eq!(cli.frontier_connection.command, "frontier-wrapper agent");
    assert_eq!(cli.frontier_connection.model.as_deref(), Some("frontier-model"));
    assert_eq!(cli.worker_connection.auto_compact_window, Some(196_608));
    assert_eq!(cli.worker_connection.auto_compact_percent, Some(75));
    assert_eq!(cli.worker_connection.max_output_tokens, Some(8_192));
    assert_eq!(cli.verify_command.as_deref(), Some("/opsx:verify"));
    assert_eq!(cli.stream_claude, Some(StreamFilter::Full));
}

#[test]
fn resolves_named_worker_and_frontier_connections() {
    let config = FileConfig {
        worker_connection: text("local"),
        frontier_connection: text("kimi"),
        connections: vec![
            (
                "kimi".to_owned(),
                FileConnection {
                    command: text("agent"),
                    model: text("kimi-k3"),
                    context_window: Some(131_072),
                    environment: text("openrouter"),
                    ..FileConnection::default()
                },
            ),
            (
                "local".to_owned(),
                FileConnection {
                    command: text("omlx launch agent"),
                    model: text("qwen-local"),
                    context_window: Some(262_144),
                    auto_compact_window: Some(196_608),
                    max_output_tokens: Some(8_192),
                    env: vec![literal("OMLX_HOST", "http://localhost:8000")],
                    ..FileConnection::default()
                },
            ),
        ],
        environments: vec![(
            "openrouter".to_owned(),
            FileEnvironment {
                env: vec![
                    reference("ANTHROPIC_AUTH_TOKEN", "KIMI_API_KEY"),
                    literal("ANTHROPIC_BASE_URL", "https://provider.example/anthropic"),
                ],
                isolate: None,
                unset_env: vec!["HTTP_PROXY".to_owned()],
            },
        )],
        ..FileConfig::default()
    };
    let cli = resolve(request("build something"), &config).unwrap();

    assert_eq!(cli.worker_connection.name.as_deref(), Some("local"));
    assert_eq!(cli.worker_connection.command, "omlx launch agent");
    assert_eq!(cli.worker_connection.model.as_deref(), Some("qwen-local"));
    assert_eq!(cli.worker_connection.context_window, Some(262_144));
    assert_eq!(cli.worker_connection.auto_compact_window, Some(196_608));
    assert_eq!(cli.worker_connection.max_output_tokens, Some(8_192));
    assert!(cli.worker_connection.isolate);
    assert_eq!(
        value(&cli.worker_connection.env, "OMLX_HOST"),
        Some(&ConnectionEnvironmentValue::Literal("http://localhost:8000".to_owned()))
    );

    assert_eq!(cli.frontier_connection.name.as_deref(), Some("kimi"));
    assert_eq!(cli.frontier_connection.environment_name.as_deref(), Some("openrouter"));
    assert_eq!(cli.frontier_connection.model.as_deref(), Some("kimi-k3"));
    assert_eq!(cli.frontier_connection.context_window, Some(131_072));
    assert_eq!(cli.frontier_connection.unset_env, ["HTTP_PROXY"]);
    assert!(matches!(
        value(&cli.frontier_connection.env, "ANTHROPIC_AUTH_TOKEN"),
        Some(ConnectionEnvironmentValue::FromEnvironment(reference))
            if reference.from_env == "KIMI_API_KEY"
    ));
}

#[test]
fn connection_profiles_select_an_explicit_backend() {
    let config = FileConfig {
        worker_connection: text("open"),
        frontier_connection: text("frontier"),
        connections: vec![
            (
                "frontier".to_owned(),
                FileConnection { command: text("agent-wrapper"), ..FileConnection::default() },
            ),
            (
                "open".to_owned(),
                FileConnection {
                    backend: BackendKind::OpenCode,
                    model: text("provider/worker"),
                    ..FileConnection::default()
                },
            ),
        ],
        ..FileConfig::default()
    };
    let cli = resolve(request("build something"), &config).unwrap();

    assert_eq!(cli.worker_connection.backend, BackendKind::OpenCode);
    assert_eq!(cli.worker_connection.command, "opencode");
    assert_eq!(cli.frontier_connection.backend, BackendKind::Claude);
    assert_eq!(cli.frontier_connection.command, "agent-wrapper");
}

#[test]
fn codex_connection_uses_the_codex_default_command() {
    let config = FileConfig {
        worker_connection: text("codex-worker"),
        frontier_connection: text("codex-frontier"),
        connections: vec![
            (
                "codex-frontier".to_owned(),
                FileConnection {
                    backend: BackendKind::Codex,
                    command: text("codex --profile frontier"),
                    model: text("gpt-frontier"),
                    ..FileConnection::default()
                },
            ),
            (
                "codex-worker".to_owned(),
                FileConnection {
                    backend: BackendKind::Codex,
                    model: text("gpt-5.6-codex"),
                    permission_profile: text("opsx-build"),
                    context_window: Some(parse_token_count("200k").unwrap()),
                    auto_compact_percent: Some(75),
                    ..FileConnection::default()
                },
            ),
        ],
        ..FileConfig::default()
    };
    let cli = resolve(request("build something"), &config).unwrap();

    assert_eq!(cli.worker_connection.backend, BackendKind::Codex);
    assert_eq!(cli.worker_connection.command, "codex");
    assert_eq!(cli.worker_connection.permission_profile.as_deref(), Some("opsx-build"));
    assert_eq!(cli.worker_connection.model.as_deref(), Some("gpt-5.6-codex"));
    assert_eq!(cli.worker_connection.context_window, Some(204_800));
    assert_eq!(cli.worker_connection.auto_compact_percent, Some(75));
    assert_eq!(cli.frontier_connection.backend, BackendKind::Codex);
    assert_eq!(cli.frontier_connection.command, "codex --profile frontier");
    assert_eq!(cli.frontier_connection.model.as_deref(), Some("gpt-frontier"));
}

#[test]
fn permission_profiles_are_codex_only() {
    let config = FileConfig {
        worker_connection: text("agent-worker"),
        connections: vec![(
            "agent-worker".to_owned(),
            FileConnection {
                backend: BackendKind::Claude,
                permission_profile: text("opsx-build"),
                ..FileConnection::default()
            },
        )],
        ..FileConfig::default()
    };
    let error = resolve(request("build something"), &config).unwrap_err();
    assert!(error.message.contains("supported only by the Codex backend"));
}

#[test]
fn multiple_connections_share_one_environment_profile() {
    let profile = |model: &str| FileConnection {
        command: text("agent"),
        model: text(model),
        environment: text("openrouter"),
        ..FileConnection::default()
    };
    let config = FileConfig {
        worker_connection: text("openrouter-kimi"),
        frontier_connection: text("openrouter-gemini"),
        environments: vec![(
            "openrouter".to_owned(),
            FileEnvironment {
                env: vec![
                    literal("ANTHROPIC_API_KEY", ""),
                    reference("ANTHROPIC_AUTH_TOKEN", "OPENROUTER_API_KEY"),
                    literal("ANTHROPIC_BASE_URL", "https://openrouter.ai/api"),
                ],
                isolate: None,
                unset_env: vec![],
            },
        )],
        connections: vec![
            ("openrouter-gemini".to_owned(), profile("google/gemini")),
            ("openrouter-kimi".to_owned(), profile("moonshotai/kimi-k3")),
        ],
        ..FileConfig::default()
    };
    let cli = resolve(request("build something"), &config).unwrap();

    for connection in [&cli.worker_connection, &cli.frontier_connection] {
        assert_eq!(connection.environment_name.as_deref(), Some("openrouter"));
        assert_eq!(
            value(&connection.env, "ANTHROPIC_BASE_URL"),
            Some(&ConnectionEnvironmentValue::Literal("https://openrouter.ai/api".to_owned()))
        );
        assert_eq!(
            value(&connection.env, "ANTHROPIC_API_KEY"),
            Some(&ConnectionEnvironmentValue::Literal(String::new()))
        );
    }
    assert_eq!(cli.worker_connection.model.as_deref(), Some("moonshotai/kimi-k3"));
    assert_eq!(cli.frontier_connection.model.as_deref(), Some("google/gemini"));
}

#[test]
fn connection_environment_overrides_shared_environment_values() {
    let config = FileConfig {
        frontier_connection: text("custom"),
        environments: vec![(
            "provider".to_owned(),
            FileEnvironment {
                env: vec![literal("ROUTING_HINT", "shared")],
                isolate: None,
                unset_env: vec![],
            },
        )],
        connections: vec![(
            "custom".to_owned(),
            FileConnection {
                environment: text("provider"),
                env: vec![literal("ROUTING_HINT", "connection-specific")],
                ..FileConnection::default()
            },
        )],
        ..FileConfig::default()
    };
    let cli = resolve(request("build something"), &config).unwrap();

    assert_eq!(
        value(&cli.frontier_connection.env, "ROUTING_HINT"),
        Some(&ConnectionEnvironmentValue::Literal("connection-specific".to_owned()))
    );
}

#[test]
fn rejects_an_unknown_shared_environment_profile() {
    let config = FileConfig {
        frontier_connection: text("hosted"),
        connections: vec![(
            "hosted".to_owned(),
            FileConnection { environment: text("missing"), ..FileConnection::default() },
        )],
        environments: vec![(
            "openrouter".to_owned(),
            FileEnvironment {
                env: vec![literal("ANTHROPIC_BASE_URL", "https://openrouter.ai/api")],
                isolate: None,
                unset_env: vec![],
            },
        )],
        ..FileConfig::default()
    };
    let error = resolve(request("build something"), &config).unwrap_err();

    assert!(error.message.contains(
        "connection profile `hosted` references unknown environment profile `missing`"
    ));
    assert!(error.message.contains("available environments: openrouter"));
}

#[test]
fn command_line_connection_and_model_override_config_selection() {
    let config = FileConfig {
        frontier_connection: text("hosted"),
        connections: vec![
            (
                "hosted".to_owned(),
                FileConnection {
                    command: text("hosted-agent"),
                    model: text("hosted-default"),
                    ..FileConnection::default()
                },
            ),
            (
                "local-large".to_owned(),
                FileConnection {
                    command: text("omlx launch agent"),
                    model: text("large-default"),
                    ..FileConnection::default()
                },
            ),
        ],
        ..FileConfig::default()
    };
    let cli = resolve(
        CliArgs {
            frontier_connection: text("local-large"),
            frontier_model: text("specific-large-model"),
            ..request("build something")
        },
        &config,
    )
    .unwrap();

    assert_eq!(cli.frontier_connection.name.as_deref(), Some("local-large"));
    assert_eq!(cli.frontier_connection.command, "omlx launch agent");
    assert_eq!(cli.frontier_connection.model.as_deref(), Some("specific-large-model"));
}

#[test]
fn rejects_an_unknown_connection_profile_with_available_names() {
    let config = FileConfig {
        worker_connection: text("missing"),
        connections: vec![(
            "local".to_owned(),
            FileConnection { command: text("agent"), ..FileConnection::default() },
        )],
        ..FileConfig::default()
    };
    let error = resolve(request("build something"), &config).unwrap_err();

    assert!(error.message.contains("unknown agent connection profile `missing`"));
    assert!(error.message.contains("available profiles: local"));
}

#[test]
fn command_line_values_override_file_values() {
    let config = FileConfig {
        max_verify_retries: Some(5),
        max_output_retries: Some(6),
        max_provider_retries: Some(7),
        local_worker_timeout_minutes: Some(90),
        claude_model: text("config-model"),
        frontier_command: text("configured-frontier"),
        frontier_model: text("configured-frontier-model"),
        auto_compact_window: Some(131_072),
        auto_compact_percent: Some(80),
        max_output_tokens: Some(16_384),
        ..FileConfig::default()
    };
    let cli = resolve(
        CliArgs {
            max_verify_retries: Some(2),
            max_output_retries: Some(4),
            max_provider_retries: Some(2),
            local_worker_timeout_minutes: Some(30),
            claude_model: text("cli-model"),
            frontier_command: text("cli-frontier"),
            frontier_model: text("cli-frontier-model"),
            auto_compact_window: Some(parse_token_count("200k").unwrap()),
            auto_compact_percent: Some(50),
            max_output_tokens: Some(parse_token_count("12k").unwrap()),
            ..request("build something")
        },
        &config,
    )
    .unwrap();

    assert_eq!(cli.max_verify_retries, 2);
    assert_eq!(cli.max_output_retries, 4);
    assert_eq!(cli.max_provider_retries, 2);
    assert_eq!(cli.local_worker_timeout_minutes, 30);
    assert_eq!(cli.worker_connection.model.as_deref(), Some("cli-model"));
    assert_eq!(cli.frontier_connection.command, "cli-frontier");
    assert_eq!(cli.frontier_connection.model.as_deref(), Some("cli-frontier-model"));
    assert_eq!(cli.worker_connection.auto_compact_window, Some(204_800));
    assert_eq!(cli.worker_connection.auto_compact_percent, Some(50));
    assert_eq!(cli.worker_connection.max_output_tokens, Some(12_288));
}

#[test]
fn uses_builtin_defaults_without_a_file() {
    let cli = resolve(request("build something"), &FileConfig::default()).unwrap();
    assert_eq!(cli.max_verify_retries, DEFAULT_MAX_VERIFY_RETRIES);
    assert_eq!(cli.max_output_retries, DEFAULT_MAX_OUTPUT_RETRIES);
    assert_eq!(cli.max_provider_retries, DEFAULT_MAX_PROVIDER_RETRIES);
    assert_eq!(cli.local_worker_timeout_minutes, DEFAULT_LOCAL_WORKER_TIMEOUT_MINUTES);
    assert!(!cli.loop_workflow);
    assert!(!cli.yolo);
    assert_eq!(cli.max_iterations, None);
    assert_eq!(cli.permission_mode, DEFAULT_PERMISSION_MODE);
    assert_eq!(cli.worker_connection.command, COMMAND);
    assert_eq!(cli.frontier_connection.command, COMMAND);
    assert_eq!(cli.frontier_connection.model, None);
    assert_eq!(cli.worker_connection.context_window, None);
    assert_eq!(cli.worker_connection.auto_compact_window, None);
    assert_eq!(cli.worker_connection.auto_compact_percent, None);
    assert_eq!(cli.worker_connection.max_output_tokens, None);
}

#[test]
fn parses_auto_compact_windows_and_percentages() {
    assert_eq!(parse_token_count("196_608").unwrap(), 196_608);
    assert_eq!(parse_token_count("192k").unwrap(), 196_608);
    assert_eq!(parse_token_count("1M").unwrap(), 1_048_576);

    let percentage = parse_token_count("75%").unwrap_err();
    assert!(percentage.message.contains("--auto-compact-percent"));
    assert_eq!(parse_percentage("75").unwrap(), 75);
    assert_eq!(parse_percentage("50%").unwrap(), 50);
    assert!(parse_percentage("0").is_err());
    assert!(parse_percentage("101").is_err());
    assert!(parse_token_count("0").is_err());
}

#[test]
fn parses_campaign_loop_and_positive_iteration_limit() {
    let cli = load(CliArgs {
        loop_workflow: true,
        max_iterations: Some(8),
        ..request("finish the compiler")
    })
    .unwrap();
    assert!(cli.loop_workflow);
    assert_eq!(cli.max_iterations, Some(8));

    assert!(load(CliArgs { max_iterations: Some(2), ..request("finish the compiler") }).is_err());
}

#[test]
fn enables_yolo_from_the_command_line() {
    assert!(load(CliArgs { yolo: true, ..request("advance") }).unwrap().yolo);
}

#[test]
fn rewind_defaults_to_the_post_bootstrap_tag_and_accepts_an_override() {
    let cli = load(request("rewind")).unwrap();
    assert_eq!(cli.request, "rewind");
    assert_eq!(cli.rewind_target.as_deref(), Some("post-bootstrap"));
    assert!(!cli.yes);

    let cli = load(CliArgs {
        yes: true,
        rewind_target: text("my-bootstrap-baseline"),
        ..request("rewind")
    })
    .unwrap();
    assert_eq!(cli.rewind_target.as_deref(), Some("my-bootstrap-baseline"));
    assert!(cli.yes);
}

#[test]
fn rewind_only_options_are_rejected_for_other_workflows() {
    assert!(load(CliArgs { rewind_target: text("some-ref"), ..request("build it") }).is_err());
    assert!(load(CliArgs { yes: true, ..request("advance") }).is_err());
}

#[test]
fn no_yolo_restores_safe_commits_over_a_configured_default() {
    let config = FileConfig { yolo: Some(true), ..FileConfig::default() };
    let cli = resolve(CliArgs { no_yolo: true, ..request("advance") }, &config).unwrap();
    assert!(!cli.yolo);
}

#[test]
fn no_loop_overrides_a_configured_campaign_without_losing_other_defaults() {
    let config = FileConfig {
        loop_workflow: Some(true),
        max_iterations: Some(12),
        claude_model: text("configured-model"),
        ..FileConfig::default()
    };
    let cli = resolve(CliArgs { no_loop: true, ..request("one change") }, &config).unwrap();
    assert!(!cli.loop_workflow);
    assert_eq!(cli.max_iterations, Some(12));
    assert_eq!(cli.worker_connection.model.as_deref(), Some("configured-model"));
}

#[test]
fn loads_an_explicit_file_and_records_its_path() {
    let args = CliArgs { config: text("/conf/config.toml"), ..request("build something") };
    assert!(matches!(
        config_source(&args, None, Some("/home/config.toml")),
        ConfigSource::Named(path) if path == "/conf/config.toml"
    ));
    let config = FileConfig {
        claude_command: text("omlx launch agent"),
        claude_model: text("configured-model"),
        ..FileConfig::default()
    };
    let cli = Cli::load(&args, &config, text("/conf/config.toml"), &harness()).unwrap();

    assert_eq!(cli.config_path.as_deref(), Some("/conf/config.toml"));
    assert_eq!(cli.worker_connection.command, "omlx launch agent");
    assert_eq!(cli.worker_connection.model.as_deref(), Some("configured-model"));
}

#[test]
fn no_config_skips_even_an_explicit_missing_file() {
    let args = CliArgs {
        config: text("/definitely/missing/config.toml"),
        no_config: true,
        ..request("build something")
    };
    assert!(matches!(config_source(&args, None, None), ConfigSource::Defaults));
    let cli = load(args).unwrap();
    assert!(cli.config_path.is_none());
    assert_eq!(cli.worker_connection.command, COMMAND);
}

#[test]
fn interactive_mode_allows_no_initial_prompt_and_passthrough_args() {
    let cli = load(CliArgs {
        interactive: true,
        interactive_args: vec!["--effort".to_owned(), "xhigh".to_owned()],
        ..CliArgs::default()
    })
    .unwrap();
    assert!(cli.interactive);
    assert!(cli.request.is_empty());
    assert_eq!(cli.interactive_args, ["--effort", "xhigh"]);
}

#[test]
fn connection_test_selects_one_profile_without_a_build_request() {
    let config = FileConfig {
        worker_connection: text("local"),
        connections: vec![
            (
                "local".to_owned(),
                FileConnection { model: text("local-model"), ..FileConnection::default() },
            ),
            (
                "openrouter-kimi".to_owned(),
                FileConnection { model: text("moonshotai/kimi-k3"), ..FileConnection::default() },
            ),
        ],
        ..FileConfig::default()
    };
    let test = || CliArgs { test_connection: text("openrouter-kimi"), ..CliArgs::default() };
    let cli = resolve(test(), &config).unwrap();

    assert_eq!(cli.test_connection.as_deref(), Some("openrouter-kimi"));
    assert!(!cli.basic_connection_test);
    assert!(cli.request.is_empty());
    assert_eq!(cli.worker_connection.name.as_deref(), Some("openrouter-kimi"));
    assert_eq!(cli.worker_connection.model.as_deref(), Some("moonshotai/kimi-k3"));
    let basic =
        resolve(CliArgs { basic_connection_test: true, ..test() }, &config).unwrap();
    assert!(basic.basic_connection_test);
}

#[test]
fn debug_is_an_explicit_transient_switch() {
    let cli = load(CliArgs { debug: true, ..request("build something") }).unwrap();
    assert!(cli.debug);
    assert!(!cli.verbose);
}

#[test]
fn direction_is_one_shot_resume_input() {
    let cli = load(CliArgs {
        resume: true,
        direction: text("keep the AST unchanged"),
        ..CliArgs::default()
    })
    .unwrap();
    assert_eq!(cli.direction.as_deref(), Some("keep the AST unchanged"));
}

#[test]
fn workflow_defaults_to_advance_and_accepts_next_slice_alias() {
    assert_eq!(load(CliArgs::default()).unwrap().request, "advance");
    assert_eq!(load(request("next slice")).unwrap().request, "advance");
}

#[test]
fn bootstrap_accepts_explicit_markdown_context_and_validates_options() {
    let bootstrap = || CliArgs {
        define: vec!["language=Go".to_owned()],
        context: text("project.md"),
        ..request("bootstrap")
    };
    let cli = load(bootstrap()).unwrap();
    assert_eq!(cli.request, "bootstrap");
    assert_eq!(cli.bootstrap_context.as_deref(), Some("project.md"));
    assert_eq!(cli.bootstrap_defines, [("language".to_owned(), "Go".to_owned())]);

    assert!(load(CliArgs { context: text("project.md"), ..request("advance") }).is_err());
    assert!(
        load(CliArgs { define: vec!["language=Go".to_owned()], ..request("advance") }).is_err()
    );
    assert!(load(CliArgs {
        define: vec!["language=Go".to_owned(), "language=Rust".to_owned()],
        ..bootstrap()
    })
    .is_err());
    assert!(load(CliArgs { loop_workflow: true, ..bootstrap() }).is_err());
}

#[test]
fn execute_composes_bootstrap_and_an_advance_campaign() {
    let execute = || CliArgs { context: text("project.md"), ..request("execute") };
    let cli = load(CliArgs {
        define: vec!["language=Go".to_owned()],
        max_iterations: Some(9),
        ..execute()
    })
    .unwrap();
    assert!(cli.execute);
    assert_eq!(cli.request, "advance");
    assert!(cli.loop_workflow);
    assert_eq!(cli.max_iterations, Some(9));
    assert_eq!(cli.bootstrap_context.as_deref(), Some("project.md"));
    assert!(load(CliArgs { no_loop: true, ..execute() }).is_err());
}

#[test]
fn update_skills_is_a_standalone_mode() {
    let cli = load(CliArgs { update_skills: true, ..CliArgs::default() }).unwrap();
    assert!(cli.update_skills);
    assert!(cli.request.is_empty());
}

#[test]
fn resume_allows_no_request_and_conflicts_with_interactive() {
    let cli = load(CliArgs { resume: true, ..CliArgs::default() }).unwrap();
    assert!(cli.resume);
    assert!(cli.request.is_empty());
}

#[test]
fn continues_existing_change_without_request() {
    let cli = load(CliArgs {
        continue_existing: true,
        change: text("fix-test-harness"),
        ..CliArgs::default()
    })
    .unwrap();
    assert!(cli.continue_existing);
    assert_eq!(cli.change.as_deref(), Some("fix-test-harness"));
    assert!(cli.request.is_empty());
}

#[test]
fn change_prescribes_a_free_form_request_or_selects_an_existing_change() {
    let cli = load(CliArgs {
        change: text("remote-path-prefix"),
        ..request("support remote URI path prefixes")
    })
    .unwrap();
    assert_eq!(cli.change.as_deref(), Some("remote-path-prefix"));
    assert_eq!(cli.request, "support remote URI path prefixes");

    assert!(load(CliArgs { change: text("fix-test-harness"), ..CliArgs::default() }).is_err());
    assert!(load(CliArgs {
        change: text("fix-test-harness"),
        loop_workflow: true,
        ..request("build something")
    })
    .is_err());
}

#[test]
fn forget_allows_no_request_and_conflicts_with_resume() {
    let cli = load(CliArgs { forget: true, ..CliArgs::default() }).unwrap();
    assert!(cli.forget);
    assert!(cli.request.is_empty());
}

#[test]
fn definitions_have_names_and_come_in_order() {
    let defines = |list: &[&str]| {
        parse_bootstrap_defines(&list.iter().map(|s| s.to_string()).collect())
    };
    assert_eq!(
        defines(&["b=2", "a=1=1"]).unwrap(),
        [("a".to_owned(), "1=1".to_owned()), ("b".to_owned(), "2".to_owned())]
    );
    assert!(defines(&["novalue"]).is_err());
    assert!(defines(&["1a=x"]).is_err());
}

#[test]
fn the_desktop_decides_where_settings_are() {
    assert_eq!(
        default_config_root(Some("/xdg"), Some("/home/me")).as_deref(),
        Some("/xdg")
    );
    assert_eq!(
        default_config_root(Some(""), Some("/home/me")).as_deref(),
        Some("/home/me/.config")
    );
    assert_eq!(default_config_root(None, None), None);
}

#[test]
fn token_counts_and_percentages_say_what_is_wrong() {
    assert!(parse_token_count("").is_err());
    assert!(parse_token_count("k").is_err());
    assert!(parse_token_count("99999999999999999999").is_err());
    assert_eq!(
        parse_percentage("x").unwrap_err().message,
        "invalid percentage `x`"
    );
    assert_eq!(
        parse_percentage("101%").unwrap_err().message,
        "percentage must be between 1 and 100"
    );
}

#[test]
fn bootstrap_and_execute_accept_an_omitted_context_for_repository_discovery() {
    for command in ["bootstrap", "execute"] {
        let cli = load(CliArgs { no_config: true, ..request(command) }).unwrap();
        assert!(cli.bootstrap_context.is_none());
        assert_eq!(cli.execute, command == "execute");
    }
}

#[test]
fn token_counts_are_digits_with_a_unit() {
    for (text, count) in [
        ("1", 1),
        ("1_000", 1_000),
        (" 2k\n", 2_048),
        ("2K", 2_048),
        ("_3_m_", 3_145_728),
        ("3M", 3_145_728),
        ("18446744073709551615", u64::MAX),
        ("17592186044415m", 17_592_186_044_415 * 1_048_576),
    ] {
        assert_eq!(parse_token_count(text).unwrap(), count, "{text}");
    }
    for (text, message) in [
        ("0", "token count must be greater than zero"),
        ("0k", "token count must be greater than zero"),
        ("18446744073709551616", "invalid token count `18446744073709551616`"),
        ("17592186044416m", "token count `17592186044416m` is too large"),
        ("75 %", "use --auto-compact-percent for percentage thresholds"),
        (" 75% ", "use --auto-compact-percent for percentage thresholds"),
        ("k", "invalid token count `k`"),
        ("1 k", "invalid token count `1 k`"),
    ] {
        assert_eq!(parse_token_count(text).unwrap_err().message, message, "{text}");
    }
}
