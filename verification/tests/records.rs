use opsx_build::campaign_config::{
    configure_command, fingerprint, has_preset, is_changed, json_section, judge_proposal, put_use,
    recorded_arguments, render, save_agreement, section, section_range, Agreement, CampaignConfig,
    Proposal, UseRecord, Verdict, PRESET_WARNING,
};
use opsx_build::checkpoint::{checkpoint_format, open_checkpoint, schema_version, Format, Opened};
use opsx_build::failure::Failure;
use opsx_build::json::{Json, JsonNumber};
use opsx_build::model_confusions::{
    prompt_guidance, render_guidance, render_reject_script, shell_quote, validate_catalog, Catalog,
    ModelConfusion,
};
use opsx_build::names::Harness;

fn harness() -> Harness {
    Harness { title: "Agent".to_owned(), name: "agent".to_owned() }
}

fn texts(list: &[&str]) -> Vec<String> {
    list.iter().map(|s| s.to_string()).collect()
}

fn agreement(intent: &str, notes: &str, arguments: &[&str]) -> Agreement {
    Agreement {
        intent: intent.to_owned(),
        notes: notes.to_owned(),
        arguments: texts(arguments),
        defaults: texts(arguments),
        at: "2026-09-22T12:00:00Z".to_owned(),
        version: "1.0".to_owned(),
    }
}

fn record(arguments: &[&str]) -> UseRecord {
    UseRecord {
        at: "2026-09-23T12:00:00Z".to_owned(),
        version: "1.0".to_owned(),
        request: "advance".to_owned(),
        execute: false,
        resume: false,
        arguments: texts(arguments),
    }
}

fn config(contents: String) -> CampaignConfig {
    CampaignConfig { path: "/r/opsx-build.md".to_owned(), contents }
}

fn empty() -> Json {
    Json::Object(vec![])
}

#[test]
fn detects_edits_but_excludes_runtime_bookkeeping_and_line_endings() {
    let args = ["--max-provider-retries=10"];
    let contents =
        render(&agreement("Test transactions", "Accepted the defaults.", &args), empty()).unwrap();
    let campaign = config(contents.clone());
    assert!(!campaign.changed());
    assert_eq!(campaign.arguments().unwrap(), args);
    let used = config(campaign.record_used(&contents, &record(&args)).unwrap());
    assert!(!used.changed());
    assert_eq!(used.arguments().unwrap(), args);
    let last = json_section(&used.contents, "last-used").unwrap();
    assert!(matches!(last.get("arguments"), Some(Json::Array(_))));
    assert!(matches!(last.get("request"), Some(Json::Text(s)) if s == "advance"));
    let edited = config(used.contents.replace("Test transactions", "Test persistence"));
    assert!(edited.changed());
    let windows = config(used.contents.replace('\n', "\r\n"));
    assert!(!windows.changed());
    assert_eq!(windows.arguments().unwrap(), args);
}

#[test]
fn recorded_arguments_are_read_back_whatever_they_hold() {
    let args = [
        "--direction=say \"hello\" to C:\\temp",
        "two\nlines\r\nand\ta tab",
        "```json\n[]\n```",
        "<!-- not a mark -->",
        "\u{1}\u{7f}é",
        "",
    ];
    let contents =
        render(&agreement("First line\r\nsecond line\r", "  notes\r\n", &args), empty()).unwrap();
    let campaign = config(contents.clone());
    assert_eq!(campaign.arguments().unwrap(), args);
    assert!(!campaign.changed());
    let used = config(campaign.record_used(&contents, &record(&args)).unwrap());
    assert_eq!(used.arguments().unwrap(), args);
    assert!(!used.changed());
}

#[test]
fn an_argument_that_is_a_mark_of_the_settings_cannot_be_read_back() {
    let args = ["<!-- opsx-build:arguments -->"];
    let contents = render(&agreement("Intent", "", &args), empty()).unwrap();
    assert!(config(contents).arguments().is_err());
}

#[test]
fn refuses_ambiguous_sections_and_preserves_preset_caveat() {
    let args = ["--worker-model=@preset/motd"];
    let contents = render(&agreement("Experiment", "", &args), empty()).unwrap();
    assert!(contents.contains(PRESET_WARNING));
    assert!(json_section(&(contents.clone() + &section("arguments", "[]")), "arguments").is_err());
    assert!(render(&agreement("<!-- opsx-build:arguments -->", "", &args), empty()).is_err());
    assert!(render(&agreement("Intent", "<!-- /opsx-build:arguments -->", &args), empty()).is_err());
}

#[test]
fn config_harness_has_no_campaign_model_effort_permission_or_environment_overrides() {
    let command = configure_command(
        "/repo",
        "/tmp/config",
        "/tmp/config/reference.md",
        "/tmp/config/proposal.json",
        &harness(),
    );
    assert_eq!(command.program, "agent");
    assert!(command.env.is_empty());
    assert!(command.env_remove.is_empty());
    assert!(!command.args.iter().any(|arg| matches!(
        arg.as_str(),
        "--model" | "--effort" | "--permission-mode" | "--print" | "--plugin-dir"
    )));
    assert!(command
        .args
        .iter()
        .any(|arg| arg.contains("Defaults are accepted only when the user agrees")));
}

#[test]
fn fingerprints_are_stable() {
    assert_eq!(fingerprint("").unwrap(), "fnv1a64:cbf29ce484222325");
    assert_eq!(fingerprint("a").unwrap(), "fnv1a64:af63dc4c8601ec8c");
    assert_eq!(fingerprint("foobar").unwrap(), "fnv1a64:85944171f73967e8");
    assert_eq!(fingerprint("a\r\nb").unwrap(), fingerprint("a\nb").unwrap());
    let with = format!("a{}b{}c", section("configured", "x"), section("last-used", "y"));
    assert_eq!(fingerprint(&with).unwrap(), fingerprint("abc").unwrap());
}

#[test]
fn sections_are_found_where_they_stand() {
    let text = format!("a{}b", section("x", "body"));
    let (from, to) = section_range(&text, "x").unwrap().unwrap();
    assert_eq!(&text[from..to], section("x", "body"));
    assert_eq!(section_range(&text, "y").unwrap(), None);
    let twice = format!("{}{}", section("x", ""), section("x", ""));
    assert_eq!(
        section_range(&twice, "x").unwrap_err().message,
        "duplicate `x` section in opsx-build.md"
    );
    assert_eq!(
        section_range("<!-- opsx-build:x -->", "x").unwrap_err().message,
        "incomplete `x` section in opsx-build.md"
    );
    let message = |text: &str| json_section(text, "x").unwrap_err().message;
    assert_eq!(message("none"), "missing `x` section");
    assert_eq!(message(&section("x", "none")), "missing JSON settings block");
    assert_eq!(message(&section("x", "```json\n1")), "unterminated JSON settings block");
    assert_eq!(message(&section("x", "```json\n{\n```")), "invalid JSON settings block");
}

#[test]
fn recorded_arguments_have_to_be_a_list_of_texts() {
    let number = |n: i64| {
        Json::Number(JsonNumber {
            text: n.to_string(),
            unsigned: u64::try_from(n).ok(),
            signed: Some(n),
        })
    };
    let format = |n: i64| Ok(Json::Object(vec![("format".to_owned(), number(n))]));
    let list = |items: Vec<Json>| Ok(Json::Array(items));
    let none = || Err(Failure { message: "missing `arguments` section".to_owned() });
    assert_eq!(
        recorded_arguments(&format(1), &list(vec![Json::Text("--yolo".to_owned())])).unwrap(),
        ["--yolo"]
    );
    assert!(recorded_arguments(&format(2), &list(vec![]))
        .unwrap_err()
        .message
        .starts_with("unsupported opsx-build.md format"));
    assert!(recorded_arguments(&format(1), &none())
        .unwrap_err()
        .message
        .ends_with(": missing `arguments` section"));
    assert_eq!(
        recorded_arguments(&format(1), &list(vec![number(1)])).unwrap_err().message,
        "recorded settings must be an array of command-line arguments"
    );
    assert!(is_changed(&none(), &Ok("fnv1a64:0".to_owned())));
}

#[test]
fn a_file_that_changed_is_not_overwritten() {
    let contents = render(&agreement("Intent", "", &[]), empty()).unwrap();
    let campaign = config(contents.clone());
    assert!(campaign.record_used(&(contents.clone() + "x"), &record(&[])).is_err());
    assert_eq!(campaign.announce().0, "Using campaign configuration `/r/opsx-build.md`");
    assert_eq!(campaign.announce().1, None);
    assert!(config(contents.clone() + "x").announce().1.is_some());
    let error =
        save_agreement(&agreement("I", "", &[]), empty(), Some(&contents), None).unwrap_err();
    assert!(error.message.contains("changed during the conversation"));
    let used = campaign.record_used(&contents, &record(&[])).unwrap();
    let saved =
        save_agreement(&agreement("Other", "", &[]), empty(), Some(&used), Some(&used)).unwrap();
    assert!(saved.contains("2026-09-23T12:00:00Z"));
    assert!(saved.contains("Other"));
    assert!(put_use("plain", "body").unwrap().starts_with("plain\n\n<!-- opsx-build:last-used -->"));
}

#[test]
fn proposals_are_judged_before_they_are_saved() {
    let proposal = |accepted: bool, intent: &str| Proposal {
        accepted,
        intent: intent.to_owned(),
        arguments: vec![],
        notes: String::new(),
    };
    assert_eq!(judge_proposal(&proposal(false, ""), true).unwrap(), Verdict::Cancelled);
    assert!(judge_proposal(&proposal(true, "  "), false).is_err());
    assert!(judge_proposal(&proposal(true, "x"), true).is_err());
    assert_eq!(judge_proposal(&proposal(true, "x"), false).unwrap(), Verdict::Agreed);
    assert!(has_preset(&texts(&["--a", "--b=@preset/x"])));
    assert!(!has_preset(&texts(&["--a"])));
}

fn confusion(id: &str, literal: &str) -> ModelConfusion {
    ModelConfusion {
        id: id.to_owned(),
        observed_with: texts(&["Model v1"]),
        forbidden_literal: literal.to_owned(),
        guidance: "Spell widget correctly.".to_owned(),
        diagnostic: "Model v1 transposes the final letters.".to_owned(),
    }
}

#[test]
fn adding_a_catalogue_entry_extends_guidance_and_the_hook() {
    let catalog = Catalog { confusion: vec![confusion("model-v1-widget-name", "widgte")] };
    assert!(validate_catalog(&catalog).is_ok());
    let guidance = render_guidance("CONFUSIONS", &catalog);
    assert!(guidance.contains("model-v1-widget-name"));
    assert!(guidance.contains("observed with Model v1"));
    assert_eq!(
        prompt_guidance(&catalog),
        "KNOWN MODEL-SPECIFIC CONFUSIONS\n\n- Incident `model-v1-widget-name` (observed with Model v1): Spell widget correctly."
    );
    let script = render_reject_script(&catalog);
    assert!(script.starts_with("#!/bin/sh\n"));
    assert!(script.contains("grep -Fqi -- 'widgte'; then"));
    assert!(script.contains("model-v1-widget-name"));
    assert!(script.ends_with("exit 0\n"));
}

#[test]
fn catalogues_are_complete_and_distinct() {
    let message = |list: Vec<ModelConfusion>| {
        validate_catalog(&Catalog { confusion: list }).unwrap_err().message
    };
    assert_eq!(message(vec![]), "model-confusion catalogue must contain at least one entry");
    assert!(message(vec![confusion(" ", "a")]).starts_with("model-confusion entries require"));
    assert!(message(vec![confusion("a", "a\nb")]).starts_with("model-confusion entries require"));
    assert_eq!(
        message(vec![confusion("a", "x"), confusion("a", "y")]),
        "duplicate model-confusion id `a`"
    );
    assert_eq!(
        message(vec![confusion("a", "Word"), confusion("b", "wORD")]),
        "duplicate model-confusion forbidden literal `wORD`"
    );
    assert_eq!(shell_quote("it's"), "'it'\"'\"'s'");
}

#[test]
fn checkpoints_are_opened_by_their_format() {
    assert_eq!(checkpoint_format(5).unwrap(), Format::Current);
    assert_eq!(checkpoint_format(4).unwrap(), Format::Four);
    assert!(checkpoint_format(1).unwrap_err().message.contains("unsupported checkpoint schema 1"));
    assert_eq!(
        open_checkpoint("p", "{").unwrap_err().message,
        "invalid checkpoint `p`"
    );
    let opened = open_checkpoint("p", r#"{"agenda":{"path":"x"},"schema_version":4}"#).unwrap();
    assert!(matches!(
        opened,
        Opened::Current(text) if text == r#"{"agenda":{"path":"x"},"schema_version":5}"#
    ));
    let opened = open_checkpoint("p", r#"{"agenda":{"path":"x"},"schema_version":3}"#).unwrap();
    assert!(matches!(
        opened,
        Opened::Current(text) if text == r#"{"agenda":null,"schema_version":5}"#
    ));
    assert_eq!(schema_version(&Json::Object(vec![])), 0);
}

#[test]
fn a_saved_file_counts_as_unchanged_with_the_record_it_takes_over() {
    let args = ["--yolo"];
    let first = config(render(&agreement("Intent", "", &args), empty()).unwrap());
    let used = first.record_used(&first.contents, &record(&args)).unwrap();
    let again = config(used.clone()).record_used(&used, &record(&[])).unwrap();
    assert!(!config(again.clone()).changed());
    let saved = save_agreement(&agreement("Other", "", &args), empty(), Some(&again), Some(&again));
    let saved = config(saved.unwrap());
    assert!(!saved.changed());
    assert_eq!(saved.arguments().unwrap(), args);
    for (from, to) in [("Other", "other"), ("Other", "Ather"), ("--yolo", "--yolp")] {
        assert!(config(saved.contents.replace(from, to)).changed(), "{to}");
    }
}
