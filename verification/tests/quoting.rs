use opsx_build::launch::split_command;
use opsx_build::model_confusions;
use opsx_build::process::{shell_quote, stream_user_message, CommandSpec};

const WORDS: [&str; 7] = [
    "plain-word_1.0/a:b=c@d%e+f,g",
    "two words",
    "it's",
    "''",
    "back\\slash and \"quotes\"",
    "line\nfeed",
    "",
];

#[test]
fn quoted_words_are_taken_apart_into_the_same_words() {
    assert_eq!(shell_quote("plain"), "plain");
    assert_eq!(shell_quote("two words"), "'two words'");
    assert_eq!(shell_quote("it's"), "'it'\"'\"'s'");
    assert_eq!(shell_quote(""), "''");
    for word in WORDS {
        assert_eq!(split_command(&shell_quote(word), "command").unwrap(), [word]);
        let single = model_confusions::shell_quote(word);
        assert!(single.starts_with('\'') && single.ends_with('\''));
        assert_eq!(split_command(&single, "command").unwrap(), [word]);
    }
}

#[test]
fn shown_commands_are_taken_apart_into_program_and_arguments() {
    let mut spec = CommandSpec::new("a program", "/repo");
    let mut expected = vec!["a program".to_owned()];
    for word in WORDS {
        spec = spec.arg(word);
        expected.push(word.to_owned());
    }
    assert_eq!(split_command(&spec.display(), "command").unwrap(), expected);
}

#[test]
fn words_in_single_quotes_side_by_side_are_taken_apart() {
    let quoted: Vec<String> = WORDS.iter().map(|word| model_confusions::shell_quote(word)).collect();
    assert_eq!(split_command(&quoted.join(" "), "command").unwrap(), WORDS);
}

#[test]
fn commands_that_end_open_are_refused() {
    for (command, message) in [
        ("run 'it", "command contains an unterminated quote"),
        ("run \"it\\\"", "command contains an unterminated quote"),
        ("run it\\", "command ends with an incomplete escape"),
        ("run \"it\\", "command ends with an incomplete escape"),
    ] {
        assert_eq!(split_command(command, "command").unwrap_err().message, message);
    }
    assert_eq!(split_command("run 'it\\'", "command").unwrap(), ["run", "it\\"]);
    assert!(split_command(" \t\n\u{3000} ", "command").unwrap().is_empty());
    assert!(split_command("", "command").unwrap().is_empty());
}

#[test]
fn messages_are_written_as_one_line_of_json() {
    assert_eq!(
        stream_user_message("say \"é\"\\\n\r\t\u{8}\u{c}\u{1f}\u{7f}/"),
        message_line("say \\\"é\\\"\\\\\\n\\r\\t\\b\\f\\u001f\u{7f}/")
    );
}

fn message_line(text: &str) -> String {
    format!(
        "{{\"type\":\"user\",\"message\":{{\"role\":\"user\",\"content\":[{{\"type\":\"text\",\"text\":\"{text}\"}}]}}}}\n"
    )
}
