//! Commands to be run, and what they left behind.
use crate::json::{json_literal, quote_json};
use crate::text::{
    append_all, cat3, chars_of, digit, alpha, holds, is_alpha, is_digit, join, joined,
    lemma_texts_push, push_text, replace, replaced, text_option, texts, trim, trimmed,
};
use vstd::prelude::*;
use vstd::string::*;

verus! {

/// A command: a program, where and with what it is run.
#[derive(Debug, Clone, PartialEq, Eq)]
pub struct CommandSpec {
    pub program: String,
    pub cwd: String,
    pub args: Vec<String>,
    pub env: Vec<(String, String)>,
    pub secret_env: Vec<String>,
    pub env_remove: Vec<String>,
    pub initial_stdin: Option<String>,
    pub accepts_stream_messages: bool,
}

/// What a [`CommandSpec`] holds.
pub struct CommandView {
    pub program: Seq<char>,
    pub cwd: Seq<char>,
    pub args: Seq<Seq<char>>,
    pub env: Seq<(Seq<char>, Seq<char>)>,
    pub secret_env: Seq<Seq<char>>,
    pub env_remove: Seq<Seq<char>>,
    pub initial_stdin: Option<Seq<char>>,
    pub accepts_stream_messages: bool,
}

/// The texts of a list of pairs.
pub open spec fn pairs(v: Seq<(String, String)>) -> Seq<(Seq<char>, Seq<char>)> {
    v.map_values(|p: (String, String)| (p.0@, p.1@))
}

impl View for CommandSpec {
    type V = CommandView;

    open spec fn view(&self) -> CommandView {
        CommandView {
            program: self.program@,
            cwd: self.cwd@,
            args: texts(self.args@),
            env: pairs(self.env@),
            secret_env: texts(self.secret_env@),
            env_remove: texts(self.env_remove@),
            initial_stdin: text_option(self.initial_stdin),
            accepts_stream_messages: self.accepts_stream_messages,
        }
    }
}

/// `program` run in `cwd` without arguments, in the environment as it is.
pub open spec fn bare_command(program: Seq<char>, cwd: Seq<char>) -> CommandView {
    CommandView {
        program,
        cwd,
        args: Seq::empty(),
        env: Seq::empty(),
        secret_env: Seq::empty(),
        env_remove: Seq::empty(),
        initial_stdin: None,
        accepts_stream_messages: false,
    }
}

impl CommandSpec {
    pub fn new(program: &str, cwd: &str) -> (r: CommandSpec)
        ensures
            r@ == bare_command(program@, cwd@),
    {
        let r = CommandSpec {
            program: program.to_owned(),
            cwd: cwd.to_owned(),
            args: Vec::new(),
            env: Vec::new(),
            secret_env: Vec::new(),
            env_remove: Vec::new(),
            initial_stdin: None,
            accepts_stream_messages: false,
        };
        assert(r@.args =~= Seq::empty());
        assert(r@.env =~= Seq::empty());
        assert(r@.secret_env =~= Seq::empty());
        assert(r@.env_remove =~= Seq::empty());
        r
    }

    /// The command with one more argument.
    pub fn arg(self, arg: &str) -> (r: CommandSpec)
        ensures
            r@ == (CommandView { args: self@.args.push(arg@), ..self@ }),
    {
        let mut r = self;
        push_text(&mut r.args, arg);
        r
    }

    /// The command with more arguments.
    pub fn args(self, args: &Vec<String>) -> (r: CommandSpec)
        ensures
            r@ == (CommandView { args: self@.args + texts(args@), ..self@ }),
    {
        let mut r = self;
        append_all(&mut r.args, args);
        r
    }

    /// The command with a variable set.
    pub fn env(self, name: &str, value: &str) -> (r: CommandSpec)
        ensures
            r@ == (CommandView { env: self@.env.push((name@, value@)), ..self@ }),
    {
        let mut r = self;
        let ghost was = r.env@;
        let item = (name.to_owned(), value.to_owned());
        r.env.push(item);
        assert(pairs(was.push(item)) =~= pairs(was).push((name@, value@)));
        r
    }

    /// The command with a variable set whose value is not to be shown.
    pub fn secret_env(self, name: &str, value: &str) -> (r: CommandSpec)
        ensures
            r@ == (CommandView {
                env: self@.env.push((name@, value@)),
                secret_env: self@.secret_env.push(name@),
                ..self@
            }),
    {
        let mut r = self.env(name, value);
        push_text(&mut r.secret_env, name);
        r
    }

    /// The command with a variable taken out of its environment.
    pub fn remove_env(self, name: &str) -> (r: CommandSpec)
        ensures
            r@ == (CommandView { env_remove: self@.env_remove.push(name@), ..self@ }),
    {
        let mut r = self;
        push_text(&mut r.env_remove, name);
        r
    }

    /// The command with a first message on its input, open for more.
    pub fn stream_input(self, input: String) -> (r: CommandSpec)
        ensures
            r@ == (CommandView {
                initial_stdin: Some(input@),
                accepts_stream_messages: true,
                ..self@
            }),
    {
        let mut r = self;
        r.initial_stdin = Some(input);
        r.accepts_stream_messages = true;
        r
    }

    /// The command without further messages on its input.
    pub fn disable_stream_messages(self) -> (r: CommandSpec)
        ensures
            r@ == (CommandView { accepts_stream_messages: false, ..self@ }),
    {
        let mut r = self;
        r.accepts_stream_messages = false;
        r
    }

    /// The command as it is shown: its variables, secrets covered, then its words.
    pub fn display(&self) -> (r: String)
        ensures
            r@ == displayed(self@),
    {
        let mut words: Vec<String> = Vec::new();
        let mut i: usize = 0;
        assert(texts(words@) =~= settings(self@, 0));
        while i < self.env.len()
            invariant
                i <= self.env@.len(),
                texts(words@) == settings(self@, i as int),
            decreases self.env@.len() - i,
        {
            let name = self.env[i].0.as_str();
            let word = if holds(&self.secret_env, name) {
                cat3(name, "=", "<redacted>")
            } else {
                cat3(name, "=", shell_quote(self.env[i].1.as_str()).as_str())
            };
            proof {
                lemma_texts_push(words@, word);
            }
            words.push(word);
            i += 1;
        }
        let program = shell_quote(self.program.as_str());
        proof {
            lemma_texts_push(words@, program);
        }
        words.push(program);
        let ghost front = texts(words@);
        let mut k: usize = 0;
        assert(texts(words@) =~= front + quoted(self@.args.take(0)));
        while k < self.args.len()
            invariant
                k <= self.args@.len(),
                texts(words@) == front + quoted(self@.args.take(k as int)),
            decreases self.args@.len() - k,
        {
            let word = shell_quote(self.args[k].as_str());
            proof {
                lemma_texts_push(words@, word);
            }
            words.push(word);
            k += 1;
            assert(texts(words@) =~= front + quoted(self@.args.take(k as int)));
        }
        assert(self@.args.take(k as int) =~= self@.args);
        join(&words, " ")
    }
}

/// The first `n` settings of a command, as they are shown.
pub open spec fn settings(c: CommandView, n: int) -> Seq<Seq<char>>
    decreases n,
{
    if n <= 0 {
        Seq::empty()
    } else {
        let (name, value) = c.env[n - 1];
        settings(c, n - 1).push(
            name + "="@ + (if c.secret_env.contains(name) {
                "<redacted>"@
            } else {
                shell_quoted(value)
            }),
        )
    }
}

pub open spec fn quoted(words: Seq<Seq<char>>) -> Seq<Seq<char>> {
    words.map_values(|w: Seq<char>| shell_quoted(w))
}

/// A command as it is shown.
pub open spec fn displayed(c: CommandView) -> Seq<char> {
    joined(
        settings(c, c.env.len() as int).push(shell_quoted(c.program)) + quoted(c.args),
        " "@,
    )
}

/// The characters that a shell takes as they are.
pub open spec fn plain_char(c: char) -> bool {
    alpha(c) || digit(c) || c == '_' || c == '-' || c == '.' || c == '/' || c == ':' || c == '='
        || c == '@' || c == '%' || c == '+' || c == ','
}

pub open spec fn plain_word(s: Seq<char>) -> bool {
    s.len() > 0 && forall|i: int| 0 <= i < s.len() ==> plain_char(#[trigger] s[i])
}

/// A word as a shell reads it back: as it is where that is safe, else in single
/// quotes, each single quote within put in double quotes of its own.
pub open spec fn shell_quoted(s: Seq<char>) -> Seq<char> {
    if plain_word(s) {
        s
    } else {
        "'"@ + replaced(s, "'"@, "'\"'\"'"@) + "'"@
    }
}

pub fn shell_quote(s: &str) -> (r: String)
    ensures
        r@ == shell_quoted(s@),
{
    let v = chars_of(s);
    let mut i: usize = 0;
    let mut plain = v.len() > 0;
    while i < v.len()
        invariant
            v@ == s@,
            i <= v@.len(),
            plain == (v@.len() > 0 && forall|k: int| 0 <= k < i ==> plain_char(#[trigger] v@[k])),
        decreases v@.len() - i,
    {
        let c = v[i];
        if !(is_alpha(c) || is_digit(c) || c == '_' || c == '-' || c == '.' || c == '/' || c == ':'
            || c == '=' || c == '@' || c == '%' || c == '+' || c == ',') {
            plain = false;
        }
        i += 1;
    }
    if plain {
        s.to_owned()
    } else {
        proof {
            reveal_strlit("'");
        }
        cat3("'", replace(s, "'", "'\"'\"'").as_str(), "'")
    }
}

/// What a finished command left behind.
#[derive(Debug, Clone, PartialEq, Eq)]
pub struct ProcessOutput {
    pub success: bool,
    pub code: Option<i32>,
    pub stdout: String,
    pub stderr: String,
}

/// What a command says of its failure: its error output, or its output where that
/// is empty.
pub open spec fn diagnostic(output: ProcessOutput) -> Seq<char> {
    if trimmed(output.stderr@).len() > 0 {
        trimmed(output.stderr@)
    } else {
        trimmed(output.stdout@)
    }
}

pub fn diagnostic_text(output: &ProcessOutput) -> (r: String)
    ensures
        r@ == diagnostic(*output),
{
    let errors = trim(output.stderr.as_str());
    if errors.as_str().unicode_len() > 0 {
        errors
    } else {
        trim(output.stdout.as_str())
    }
}

/// A user message, as one line of a streamed conversation.
pub open spec fn user_message(text: Seq<char>) -> Seq<char> {
    "{\"type\":\"user\",\"message\":{\"role\":\"user\",\"content\":[{\"type\":\"text\",\"text\":"@
        + json_literal(text) + "}]}}\n"@
}

pub fn stream_user_message(text: &str) -> (r: String)
    ensures
        r@ == user_message(text@),
{
    cat3(
        "{\"type\":\"user\",\"message\":{\"role\":\"user\",\"content\":[{\"type\":\"text\",\"text\":",
        quote_json(text).as_str(),
        "}]}}\n",
    )
}

/// What a command says of its failure: what it wrote as errors, and where it wrote none, what
/// it wrote at all.
pub proof fn law_failures_are_told_by_the_error_output(output: ProcessOutput)
    ensures
        trimmed(output.stderr@).len() > 0 ==> diagnostic(output) == trimmed(output.stderr@),
        trimmed(output.stderr@).len() == 0 ==> diagnostic(output) == trimmed(output.stdout@),
{
}

/// A value that is not to be shown is covered, and any other is shown as it is, quoted for a
/// shell. Every variable of a command is shown by its name, in order.
pub proof fn law_settings_are_shown_by_name(c: CommandView, n: int, i: int)
    requires
        0 <= i < n <= c.env.len(),
    ensures
        settings(c, n).len() == n,
        c.secret_env.contains(c.env[i].0) ==> settings(c, n)[i] == c.env[i].0 + "="@
            + "<redacted>"@,
        !c.secret_env.contains(c.env[i].0) ==> settings(c, n)[i] == c.env[i].0 + "="@
            + shell_quoted(c.env[i].1),
    decreases n,
{
    if i < n - 1 {
        law_settings_are_shown_by_name(c, n - 1, i);
    } else if n > 1 {
        law_settings_are_shown_by_name(c, n - 1, 0);
    } else {
        assert(settings(c, 0).len() == 0);
    }
}

/// A word is left as it is where it is made of letters, digits and signs that mean nothing to
/// a shell, and is put in quotes otherwise.
pub proof fn law_what_is_quoted(s: Seq<char>)
    ensures
        s.len() > 0 && (forall|i: int|
            0 <= i < s.len() ==> (('a' <= #[trigger] s[i] && s[i] <= 'z') || ('A' <= s[i] && s[i]
                <= 'Z') || ('0' <= s[i] && s[i] <= '9') || s[i] == '_' || s[i] == '-' || s[i] == '.'
                || s[i] == '/' || s[i] == ':' || s[i] == '=' || s[i] == '@' || s[i] == '%' || s[i]
                == '+' || s[i] == ',')) ==> shell_quoted(s) == s,
        s.len() == 0 ==> shell_quoted(s).len() >= 2,
        (exists|i: int|
            0 <= i < s.len() && (#[trigger] s[i] == ' ' || s[i] == '$' || s[i] == '*' || s[i] == ';'
                || s[i] == '&' || s[i] == '|' || s[i] == '"' || s[i] == '\'' || s[i] == '\\'
                || s[i] == '\n')) ==> shell_quoted(s).len() >= 2 && shell_quoted(s)[0] == '\''
            && shell_quoted(s).last() == '\'',
{
    reveal_strlit("'");
    if exists|i: int|
        0 <= i < s.len() && (#[trigger] s[i] == ' ' || s[i] == '$' || s[i] == '*' || s[i] == ';'
            || s[i] == '&' || s[i] == '|' || s[i] == '"' || s[i] == '\'' || s[i] == '\\' || s[i]
            == '\n') {
        let i = choose|i: int|
            0 <= i < s.len() && (#[trigger] s[i] == ' ' || s[i] == '$' || s[i] == '*' || s[i] == ';'
                || s[i] == '&' || s[i] == '|' || s[i] == '"' || s[i] == '\'' || s[i] == '\\'
                || s[i] == '\n');
        assert(!plain_char(s[i]));
        assert(!plain_word(s));
    }
}

} // verus!
