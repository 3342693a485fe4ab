use opsx_build::agenda::{
    discover, has_subdivision, parse_slice_name, AgendaAssignment, AgendaFile, AgendaSelection,
};
use opsx_build::openspec::{
    identify_assigned_change, identify_change, numeric_prefix_reconciliation_candidate,
    select_existing_change, ChangeSnapshot,
};

fn slice(name: &str, title: &str) -> AgendaFile {
    AgendaFile {
        name: name.to_owned(),
        content: format!("# {title}\n\n## Objective\n\nDo it.\n"),
    }
}

fn texts(list: &[&str]) -> Vec<String> {
    list.iter().map(|s| s.to_string()).collect()
}

#[test]
fn selects_first_unarchived_slice_in_numeric_order() {
    let files = vec![
        slice("002-second.md", "002 - Second"),
        slice("001-first.md", "001 - First"),
    ];
    let archived = texts(&["2026-08-24-001-first"]);

    let selected = discover(&files, &archived, &vec![]).unwrap();
    let AgendaSelection::Next(assignment) = selected else {
        panic!("expected an agenda assignment");
    };
    assert_eq!(assignment.change, "002-second");
    assert_eq!(assignment.path, "automation/slices/002-second.md");
    assert_eq!(assignment.title, "002 - Second");
}

#[test]
fn resumes_a_matching_dated_active_change() {
    let files = vec![slice("001-first.md", "001 - First")];
    let active = texts(&["2026-08-24-001-first"]);

    let AgendaSelection::Next(assignment) = discover(&files, &vec![], &active).unwrap() else {
        panic!("expected an agenda assignment");
    };
    assert_eq!(assignment.change, "2026-08-24-001-first");
}

#[test]
fn reports_complete_when_every_slice_is_archived() {
    let files = vec![slice("001-first.md", "001 - First")];
    let archived = texts(&["001-first"]);
    assert_eq!(discover(&files, &archived, &vec![]).unwrap(), AgendaSelection::Complete);
}

#[test]
fn ignores_a_non_agenda_readme() {
    let files = vec![AgendaFile {
        name: "README.md".to_owned(),
        content: "instructions".to_owned(),
    }];
    assert_eq!(discover(&files, &vec![], &vec![]).unwrap(), AgendaSelection::Absent);
}

#[test]
fn accepts_four_digit_and_variable_width_slice_numbers() {
    assert_eq!(
        parse_slice_name("0001-repo-cli-scaffold.md"),
        Some((1, "0001-repo-cli-scaffold".to_owned()))
    );
    assert_eq!(
        parse_slice_name("12-parser.md"),
        Some((12, "12-parser".to_owned()))
    );
    assert_eq!(parse_slice_name("README.md"), None);
}

#[test]
fn numbers_decide_the_order_and_not_their_text() {
    let files = vec![slice("10-last.md", "Last"), slice("9-first.md", "First")];
    let AgendaSelection::Next(assignment) = discover(&files, &vec![], &vec![]).unwrap() else {
        panic!("expected an agenda assignment");
    };
    assert_eq!(assignment.change, "9-first");
}

fn snapshot(changes: &[(&str, &str)]) -> ChangeSnapshot {
    ChangeSnapshot {
        changes: changes
            .iter()
            .map(|(name, details)| (name.to_string(), details.to_string()))
            .collect(),
    }
}

#[test]
fn the_one_touched_change_is_identified() {
    let before = snapshot(&[("a", "{}"), ("b", "{}")]);
    let made = snapshot(&[("a", "{}"), ("b", "{}"), ("c", "{}")]);
    let altered = snapshot(&[("a", "{}"), ("b", "{\"tasks\":1}")]);
    let both = snapshot(&[("a", "{}"), ("b", "{\"tasks\":1}"), ("c", "{}")]);
    assert_eq!(identify_change(&before, &made).unwrap(), "c");
    assert_eq!(identify_change(&before, &altered).unwrap(), "b");
    assert_eq!(
        identify_change(&before, &before).unwrap_err().message,
        "no active OpenSpec change was created or modified"
    );
    assert_eq!(
        identify_change(&before, &both).unwrap_err().message,
        "more than one active OpenSpec change was created or modified: b, c"
    );
    assert_eq!(identify_assigned_change(&before, &both, "c").unwrap(), "c");
    assert_eq!(
        identify_assigned_change(&before, &both, "a").unwrap_err().message,
        "the assigned OpenSpec change `a` was not created or modified"
    );
}

#[test]
fn a_dropped_number_is_reconciled_only_where_it_is_certain() {
    let before = snapshot(&[("old", "{}")]);
    let after = snapshot(&[("feature", "{}"), ("old", "{}")]);
    let found = |after: &ChangeSnapshot, assigned: &str| {
        numeric_prefix_reconciliation_candidate(&before, after, assigned)
    };
    assert_eq!(found(&after, "0009-feature"), Some("feature".to_owned()));
    assert_eq!(found(&after, "0009-other"), None);
    assert_eq!(found(&after, "x9-feature"), None);
    assert_eq!(found(&after, "feature"), None);
    let two = snapshot(&[("another", "{}"), ("feature", "{}"), ("old", "{}")]);
    assert_eq!(found(&two, "0009-feature"), None);
    let assigned = snapshot(&[("0009-feature", "{}"), ("old", "{}")]);
    assert_eq!(found(&assigned, "0009-feature"), None);
}

#[test]
fn an_existing_change_is_selected_by_name_or_alone() {
    let one = snapshot(&[("a", "{}")]);
    let two = snapshot(&[("a", "{}"), ("b", "{}")]);
    assert_eq!(select_existing_change(&one, None).unwrap(), "a");
    assert_eq!(select_existing_change(&two, Some("b")).unwrap(), "b");
    assert_eq!(
        select_existing_change(&two, Some("c")).unwrap_err().message,
        "OpenSpec change `c` is not active"
    );
    assert_eq!(
        select_existing_change(&two, None).unwrap_err().message,
        "more than one OpenSpec change is active; select one with --change NAME: a, b"
    );
    assert_eq!(
        select_existing_change(&ChangeSnapshot::empty(), None).unwrap_err().message,
        "no OpenSpec change is active"
    );
}

#[test]
fn child_slices_continue_the_ordinal_of_their_parent() {
    let original = AgendaAssignment {
        path: "automation/slices/0009-feature.md".to_owned(),
        change: "0009-feature".to_owned(),
        title: "Feature".to_owned(),
        content: String::new(),
    };
    let files = |names: &[&str]| -> Vec<AgendaFile> {
        names
            .iter()
            .map(|name| AgendaFile { name: name.to_string(), content: String::new() })
            .collect()
    };
    assert!(has_subdivision(&files(&["0009-feature.md", "0009.1-next.md"]), &original));
    assert!(!has_subdivision(&files(&["0009-feature.md", "0010.1-next.md"]), &original));
    assert!(!has_subdivision(&files(&[]), &original));
}
