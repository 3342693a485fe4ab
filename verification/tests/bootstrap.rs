use opsx_build::agenda::AgendaFile;
use opsx_build::authority;
use opsx_build::bootstrap::{
    context_source, ensure_codex_guidance, init_command, instructions, managed_fragment,
    merge_managed_fragment, render_context_template, render_project_config, validate_agenda,
    worker_capacity_guidance, BootstrapScaffold, ProjectFacts, BOOTSTRAP_CHANGE, FINAL_SLICE,
    MANAGED_END, MANAGED_START, WORKER_CAPACITY_PLACEHOLDER,
};
use opsx_build::model_confusions::{claude_md_guidance, Catalog, ModelConfusion};
use opsx_build::names::Harness;

fn harness() -> Harness {
    Harness { title: "Agent".to_owned(), name: "agent".to_owned() }
}

const GUIDE: &str = "AGENT.md";

const FRAGMENT: &str = "<!-- BEGIN OPSX-BUILD MANAGED -->\n## Rules\n\n{{OPSX_BUILD_MODEL_CONFUSIONS}}\n<!-- END OPSX-BUILD MANAGED -->\n";

fn defines(list: &[(&str, &str)]) -> Vec<(String, String)> {
    list.iter().map(|(k, v)| (k.to_string(), v.to_string())).collect()
}

fn facts() -> ProjectFacts {
    ProjectFacts {
        config_exists: false,
        instructions_exist: false,
        agenda_exists: false,
        guide: String::new(),
        agents: String::new(),
    }
}

fn catalog() -> Catalog {
    Catalog {
        confusion: vec![ModelConfusion {
            id: "qwen3.6-openspec-duplicated-s".to_owned(),
            observed_with: vec!["Qwen3.6".to_owned()],
            forbidden_literal: "opensspec".to_owned(),
            guidance: "Spell the product name exactly `OpenSpec`: exactly one `s` and two `p`."
                .to_owned(),
            diagnostic: "Qwen3.6-induced failure mode".to_owned(),
        }],
    }
}

fn fragment() -> String {
    managed_fragment(FRAGMENT, &claude_md_guidance(&catalog()))
}

fn file(name: &str, content: &str) -> AgendaFile {
    AgendaFile { name: name.to_owned(), content: content.to_owned() }
}

const ORDINARY: &str = "# Scaffold\n## Objective\nOne.\n## Prerequisites\nNone.\n## Acceptance Criteria\n- Works.\n## Required Tests\n- Test.\n";

const FINAL: &str = "# Project acceptance\n## Objective\nAccept.\n## Prerequisites\nAll.\n## Acceptance Criteria\n- Done.\n## Required Tests\n- End to end.\n## Project Goal Coverage\nEverything.\n";

#[test]
fn bootstrap_context_defaults_to_the_campaign_repository() {
    let context = context_source("/campaign", None, true).unwrap();
    assert_eq!(context, "/campaign/context.md");
    let scaffold = BootstrapScaffold::plan(
        "/campaign",
        &context,
        "# Widget\nBuild it in {{language}}.\n",
        &defines(&[("language", "Go")]),
        &facts(),
        &fragment(),
        &harness(),
    )
    .unwrap();

    assert_eq!(scaffold.context_path, context);
    assert!(scaffold.config.contains("Build it in Go."));
}

#[test]
fn bootstrap_context_explicit_path_takes_precedence_without_fallback() {
    let explicit = context_source("/campaign", Some("/elsewhere/project.md"), true).unwrap();
    assert_eq!(explicit, "/elsewhere/project.md");
    let scaffold = BootstrapScaffold::plan(
        "/campaign",
        &explicit,
        "Explicit context",
        &vec![],
        &facts(),
        &fragment(),
        &harness(),
    )
    .unwrap();

    assert_eq!(scaffold.context_path, explicit);
    assert!(scaffold.config.contains("Explicit context"));
    assert!(!scaffold.config.contains("Default context"));
    let error = BootstrapScaffold::plan(
        "/campaign",
        &explicit,
        " \n",
        &vec![],
        &facts(),
        &fragment(),
        &harness(),
    )
    .unwrap_err();
    assert!(error.message.contains("project.md"));
}

#[test]
fn bootstrap_context_requires_a_file_when_no_path_is_supplied() {
    let error = context_source("/campaign", None, false).unwrap_err();
    assert!(error.message.contains("context.md"));
    assert!(error.message.contains("--context PATH"));
}

#[test]
fn renders_markdown_as_yaml_context() {
    let rendered = render_project_config("# Widget\n\nBuild a useful widget.\n");
    assert!(rendered.contains("context: |\n  # Widget\n  \n  Build a useful widget.\n"));
    assert!(rendered.contains("schema: spec-driven"));
    assert!(rendered.contains("Keep each change bounded enough"));
    assert!(rendered.contains("Treat third-party dependency choices as revisable"));
    assert!(rendered.contains("Validate material dependencies with a minimal end-to-end proof"));
}

#[test]
fn bootstrap_file_records_the_selected_worker_capacity() {
    let template =
        "# Bootstrap\n\n{{OPSX_BUILD_WORKER_CAPACITY}}\n\nSeveral files, subsystems, test cases may belong together.\n";
    for frontier_worker in [false, true] {
        let saved = instructions(template, frontier_worker);
        assert!(saved.contains(worker_capacity_guidance(frontier_worker)));
        assert!(!saved.contains(WORKER_CAPACITY_PLACEHOLDER));
        assert_eq!(saved.contains("substantially less capable"), !frontier_worker);
        assert_eq!(saved.contains("frontier-capable model"), frontier_worker);
        assert!(saved.contains("Several files, subsystems, test cases"));
    }
}

#[test]
fn renders_strict_context_variables_without_recursive_expansion() {
    let definitions = defines(&[
        ("formatter", "gofmt {{not_a_variable}}"),
        ("language", "Go"),
    ]);
    let rendered = render_context_template(
        "Written in {{ language }} and formatted with {{formatter}}.\n",
        &definitions,
    )
    .unwrap();
    assert_eq!(
        rendered,
        "Written in Go and formatted with gofmt {{not_a_variable}}.\n"
    );
}

#[test]
fn rejects_missing_unused_and_malformed_context_variables() {
    let language = defines(&[("language", "Go")]);
    assert!(render_context_template("Written in {{missing}}.", &language).is_err());
    assert!(render_context_template("No variables.", &language).is_err());
    assert!(render_context_template("Broken {{language.", &language).is_err());
    assert!(render_context_template("Broken }}.", &vec![]).is_err());
    assert!(render_context_template("Broken {{bad-name}}.", &vec![]).is_err());
}

#[test]
fn context_errors_say_what_is_wrong() {
    let none: Vec<(String, String)> = vec![];
    assert_eq!(
        render_context_template("In {{x}}.", &none).unwrap_err().message,
        "bootstrap context requires `--define x=VALUE`"
    );
    assert_eq!(
        render_context_template("a }} b {{x}}", &none).unwrap_err().message,
        "bootstrap context contains an unmatched `}}`"
    );
    assert_eq!(
        render_context_template("a {{x", &none).unwrap_err().message,
        "bootstrap context contains an unclosed `{{` placeholder"
    );
    assert_eq!(
        render_context_template("a", &defines(&[("x", "1"), ("y", "2")])).unwrap_err().message,
        "bootstrap definition(s) have no matching context placeholder: x, y"
    );
    assert_eq!(render_context_template("plain { } text", &none).unwrap(), "plain { } text");
}

#[test]
fn appends_and_replaces_only_the_managed_claude_fragment() {
    let fragment = fragment();
    let first = merge_managed_fragment("# User rules\n\nKeep this.\n", GUIDE, &fragment).unwrap();
    assert!(first.starts_with("# User rules\n\nKeep this.\n\n"));
    assert_eq!(first.matches(MANAGED_START).count(), 1);

    let updated = merge_managed_fragment(&first, GUIDE, &fragment).unwrap();
    assert_eq!(updated, first);
    assert!(merge_managed_fragment(MANAGED_START, GUIDE, &fragment).is_err());
}

#[test]
fn what_is_outside_of_the_fragment_stays() {
    let old = format!("before\n{MANAGED_START}\nold\n{MANAGED_END}\nafter\n");
    let new = format!("{MANAGED_START}\nnew\n{MANAGED_END}");
    let merged = merge_managed_fragment(&old, GUIDE, &new).unwrap();
    assert_eq!(merged, format!("before\n{MANAGED_START}\nnew\n{MANAGED_END}\nafter\n"));
    let twice = format!("{MANAGED_START}{MANAGED_END}{MANAGED_START}{MANAGED_END}");
    assert_eq!(
        merge_managed_fragment(&twice, GUIDE, &new).unwrap_err().message,
        "AGENT.md has malformed or repeated opsx-build managed markers; repair them before bootstrapping"
    );
    assert_eq!(merge_managed_fragment("  \n", GUIDE, &new).unwrap(), format!("{new}\n"));
    let reversed = format!("{MANAGED_END}\n{MANAGED_START}");
    assert!(merge_managed_fragment(&reversed, GUIDE, &new).is_err());
    assert!(merge_managed_fragment(MANAGED_END, GUIDE, &new).is_err());
}

#[test]
fn managed_fragment_includes_the_qwen36_confusion_incident() {
    let fragment = merge_managed_fragment("", GUIDE, &fragment()).unwrap();
    assert!(fragment.contains("### Known model-specific confusions"));
    assert!(fragment.contains("qwen3.6-openspec-duplicated-s"));
    assert!(fragment.contains("observed with Qwen3.6"));
    assert!(fragment.contains("Spell the product name exactly `OpenSpec`"));
    assert!(fragment.contains("exactly one `s` and two `p`"));
}

#[test]
fn codex_guidance_is_written_only_where_it_changes() {
    let fragment = fragment();
    let written = ensure_codex_guidance("", &fragment).unwrap().unwrap();
    assert_eq!(written, format!("{fragment}\n"));
    assert_eq!(ensure_codex_guidance(&written, &fragment).unwrap(), None);
    assert!(ensure_codex_guidance(MANAGED_END, &fragment).is_err());
}

#[test]
fn validates_a_complete_ordered_agenda() {
    let files = vec![
        file("README.md", "# Plan\n"),
        file("0001-scaffold.md", ORDINARY),
        file(FINAL_SLICE, FINAL),
    ];
    assert_eq!(validate_agenda(true, true, &files).unwrap(), 2);
}

#[test]
fn rejects_an_agenda_without_the_terminal_gate() {
    let files = vec![file("README.md", "# Plan\n"), file("0001-only.md", ORDINARY)];
    assert!(validate_agenda(true, true, &files).is_err());
}

#[test]
fn agenda_errors_say_what_is_wrong() {
    let message = |directory: bool, index: bool, files: Vec<AgendaFile>| {
        validate_agenda(directory, index, &files).unwrap_err().message
    };
    assert_eq!(
        message(false, false, vec![]),
        "bootstrap did not create `automation/slices`"
    );
    assert_eq!(
        message(true, false, vec![]),
        "bootstrap agenda omitted `automation/slices/README.md`"
    );
    assert_eq!(
        message(true, true, vec![file("scaffold.md", ORDINARY)]),
        "agenda file `scaffold.md` is not named `<number>-<kebab-case-slug>.md`"
    );
    assert_eq!(
        message(true, true, vec![file("001-a.md", ORDINARY)]),
        "bootstrap agenda file `001-a.md` must begin with one four-digit ordinal"
    );
    assert_eq!(
        message(true, true, vec![file("0001-a.md", ORDINARY), file("0001-b.md", ORDINARY)]),
        "agenda files `0001-a.md` and `0001-b.md` use the same ordinal"
    );
    assert_eq!(
        message(true, true, vec![file("0001-a.md", "## Objective\n")]),
        "agenda slice `0001-a.md` omitted its level-one title"
    );
    assert_eq!(
        message(true, true, vec![file("0001-a.md", "# A\n## Objective\n")]),
        "agenda slice `0001-a.md` omitted required heading `## Prerequisites`"
    );
    assert_eq!(
        message(true, true, vec![file("0001-a.md", ORDINARY), file("0002-b.md", ORDINARY)]),
        "bootstrap agenda omitted final gate `automation/slices/9999-project-acceptance.md`"
    );
    assert_eq!(
        message(true, true, vec![file("0001-a.md", ORDINARY), file(FINAL_SLICE, ORDINARY)]),
        "final gate `9999-project-acceptance.md` omitted required heading `## Project Goal Coverage`"
    );
}

#[test]
fn a_planned_root_is_never_replaced() {
    let plan = |facts: ProjectFacts| {
        BootstrapScaffold::plan("/r", "c.md", "Context", &vec![], &facts, &fragment(), &harness())
            .unwrap_err()
            .message
    };
    assert_eq!(
        plan(ProjectFacts { config_exists: true, ..facts() }),
        "OpenSpec is already initialized at `/r/openspec/config.yaml`; bootstrap is for a new planning root"
    );
    assert_eq!(
        plan(ProjectFacts { instructions_exist: true, ..facts() }),
        "bootstrap instructions already exist at `/r/automation/bootstrap.md`; preserve them and resume the existing run instead"
    );
    assert_eq!(
        plan(ProjectFacts { agenda_exists: true, ..facts() }),
        "an implementation agenda already exists under `/r/automation/slices`; bootstrap will not replace it"
    );
    assert!(plan(ProjectFacts { guide: MANAGED_END.to_owned(), ..facts() }).starts_with(GUIDE));
    assert!(plan(ProjectFacts { agents: MANAGED_END.to_owned(), ..facts() })
        .starts_with("AGENTS.md"));
}

#[test]
fn constructs_noninteractive_openspec_initialization() {
    let command = init_command("/tmp/example", &harness());
    assert_eq!(command.program, "openspec");
    assert_eq!(command.args, ["init", "--tools", "agent", "--no-animation", "."]);
}

#[test]
fn bootstrap_puts_four_files_in_place() {
    assert_eq!(
        BootstrapScaffold::paths(&harness()),
        ["openspec/config.yaml", "automation/bootstrap.md", GUIDE, "AGENTS.md"]
    );
    assert_eq!(BOOTSTRAP_CHANGE, "bootstrap-implementation-slices");
}

#[test]
fn authority_guidance_fills_its_place() {
    assert_eq!(
        authority::render("a {{OPSX_BUILD_PROJECT_AUTHORITY}} b", "  the rules\n"),
        "a the rules b"
    );
}
