//! How an agent's command is taken apart into words, and the environment it is given.
use crate::cli::{ConnectionEnvironmentValue, EnvironmentValueView};
use crate::failure::{fail, failed, Failure};
use crate::process::{CommandSpec, CommandView};
use crate::table::{find_entry, lookup, named};
use crate::text::{
    cat2, cat4, chars_of, contains, contains_text, equal, holds, is_space, lemma_skip_bounds,
    lemma_texts_push, push_text, seen_all, skip_spaces, skip_word, space, texts, to_upper, uppered,
    words_from, words_of,
};
use crate::cli::{template_name, valid_template_name};
use vstd::prelude::*;
use vstd::string::*;

verus! {

/// Which quotes surround the character that is read.
#[derive(Debug, Clone, Copy, PartialEq, Eq, Structural)]
pub enum Quote {
    Bare,
    Single,
    Double,
}

/// How far a command has been taken apart: the words that are complete, the one that is
/// being read, and what the next character stands in.
pub struct Reading {
    pub words: Seq<Seq<char>>,
    pub word: Seq<char>,
    pub quote: Quote,
    pub escaped: bool,
    pub started: bool,
}

/// Before the first character.
pub open spec fn unread() -> Reading {
    Reading {
        words: Seq::empty(),
        word: Seq::empty(),
        quote: Quote::Bare,
        escaped: false,
        started: false,
    }
}

/// After one more character. A backslash takes the next character as it is, except in
/// single quotes; blanks outside of quotes end a word.
pub open spec fn read_on(s: Reading, c: char) -> Reading {
    if s.escaped {
        Reading { word: s.word.push(c), escaped: false, started: true, ..s }
    } else if c == '\\' && s.quote != Quote::Single {
        Reading { escaped: true, started: true, ..s }
    } else if c == '\'' && s.quote == Quote::Bare {
        Reading { quote: Quote::Single, started: true, ..s }
    } else if c == '\'' && s.quote == Quote::Single {
        Reading { quote: Quote::Bare, ..s }
    } else if c == '"' && s.quote == Quote::Bare {
        Reading { quote: Quote::Double, started: true, ..s }
    } else if c == '"' && s.quote == Quote::Double {
        Reading { quote: Quote::Bare, ..s }
    } else if space(c) && s.quote == Quote::Bare {
        if s.started {
            Reading { words: s.words.push(s.word), word: Seq::empty(), started: false, ..s }
        } else {
            s
        }
    } else {
        Reading { word: s.word.push(c), started: true, ..s }
    }
}

/// After the characters from `pos` to the end.
pub open spec fn read_rest(command: Seq<char>, s: Reading, pos: int) -> Reading
    decreases command.len() - pos,
{
    if 0 <= pos < command.len() {
        read_rest(command, read_on(s, command[pos]), pos + 1)
    } else {
        s
    }
}

/// The words of a command, or why it has none. `what` says which command it is.
pub open spec fn command_words(command: Seq<char>, what: Seq<char>) -> Result<
    Seq<Seq<char>>,
    Seq<char>,
> {
    let end = read_rest(command, unread(), 0);
    if end.escaped {
        Err(what + " ends with an incomplete escape"@)
    } else if end.quote != Quote::Bare {
        Err(what + " contains an unterminated quote"@)
    } else if end.started {
        Ok(end.words.push(end.word))
    } else {
        Ok(end.words)
    }
}

/// Takes a command apart into its words, without a shell.
pub fn split_command(command: &str, what: &str) -> (r: Result<Vec<String>, Failure>)
    ensures
        match r {
            Ok(words) => command_words(command@, what@) == Ok::<_, Seq<char>>(texts(words@)),
            Err(e) => command_words(command@, what@) == Err::<Seq<Seq<char>>, _>(e.message@),
        },
{
    let v = chars_of(command);
    let mut words: Vec<String> = Vec::new();
    let mut word = "".to_owned();
    let mut quote = Quote::Bare;
    let mut escaped = false;
    let mut started = false;
    let mut i: usize = 0;
    proof {
        reveal_strlit("");
        assert(texts(words@) =~= Seq::empty());
        assert(word@ =~= Seq::empty());
    }
    while i < v.len()
        invariant
            v@ == command@,
            i <= v@.len(),
            read_rest(command@, unread(), 0) == read_rest(
                command@,
                (Reading { words: texts(words@), word: word@, quote, escaped, started }),
                i as int,
            ),
        decreases v@.len() - i,
    {
        let c = v[i];
        let ghost was = Reading { words: texts(words@), word: word@, quote, escaped, started };
        if escaped {
            word.push(c);
            escaped = false;
            started = true;
        } else if c == '\\' && quote != Quote::Single {
            escaped = true;
            started = true;
        } else if c == '\'' && quote == Quote::Bare {
            quote = Quote::Single;
            started = true;
        } else if c == '\'' && quote == Quote::Single {
            quote = Quote::Bare;
        } else if c == '"' && quote == Quote::Bare {
            quote = Quote::Double;
            started = true;
        } else if c == '"' && quote == Quote::Double {
            quote = Quote::Bare;
        } else if is_space(c) && quote == Quote::Bare {
            if started {
                proof {
                    lemma_texts_push(words@, word);
                    reveal_strlit("");
                }
                words.push(word);
                word = "".to_owned();
                assert(word@ =~= Seq::empty());
                started = false;
            }
        } else {
            word.push(c);
            started = true;
        }
        proof {
            let now = Reading { words: texts(words@), word: word@, quote, escaped, started };
            assert(now == read_on(was, c));
        }
        i += 1;
    }
    if escaped {
        return fail(cat2(what, " ends with an incomplete escape"));
    }
    if quote != Quote::Bare {
        return fail(cat2(what, " contains an unterminated quote"));
    }
    if started {
        proof {
            lemma_texts_push(words@, word);
        }
        words.push(word);
    }
    Ok(words)
}

/// Whether a character means nothing special in a command.
pub open spec fn ordinary(c: char) -> bool {
    c != '\\' && c != '\'' && c != '"'
}

proof fn lemma_read_spaces(command: Seq<char>, s: Reading, pos: int)
    requires
        0 <= pos <= command.len(),
        !s.escaped,
        !s.started,
        s.quote == Quote::Bare,
        forall|i: int| 0 <= i < command.len() ==> ordinary(#[trigger] command[i]),
    ensures
        read_rest(command, s, pos) == read_rest(command, s, skip_spaces(command, pos)),
    decreases command.len() - pos,
{
    if pos < command.len() && space(command[pos]) {
        assert(ordinary(command[pos]));
        assert(read_on(s, command[pos]) == s);
        lemma_read_spaces(command, s, pos + 1);
    }
}

proof fn lemma_read_word(command: Seq<char>, s: Reading, pos: int)
    requires
        0 <= pos <= command.len(),
        !s.escaped,
        s.started,
        s.quote == Quote::Bare,
        forall|i: int| 0 <= i < command.len() ==> ordinary(#[trigger] command[i]),
    ensures
        read_rest(command, s, pos) == read_rest(
            command,
            (Reading {
                word: s.word + command.subrange(pos, skip_word(command, pos)),
                ..s
            }),
            skip_word(command, pos),
        ),
        pos <= skip_word(command, pos) <= command.len(),
    decreases command.len() - pos,
{
    if pos < command.len() && !space(command[pos]) {
        assert(ordinary(command[pos]));
        let next = read_on(s, command[pos]);
        lemma_read_word(command, next, pos + 1);
        let e = skip_word(command, pos);
        assert(next.word + command.subrange(pos + 1, e) =~= s.word + command.subrange(pos, e));
    } else {
        assert(s.word + command.subrange(pos, pos) =~= s.word);
    }
}

proof fn lemma_plain_words(command: Seq<char>, s: Reading, pos: int)
    requires
        0 <= pos <= command.len(),
        !s.escaped,
        !s.started,
        s.word == Seq::<char>::empty(),
        s.quote == Quote::Bare,
        forall|i: int| 0 <= i < command.len() ==> ordinary(#[trigger] command[i]),
    ensures
        ({
            let end = read_rest(command, s, pos);
            &&& !end.escaped
            &&& end.quote == Quote::Bare
            &&& (if end.started {
                end.words.push(end.word)
            } else {
                end.words
            }) == s.words + words_from(command, pos)
        }),
    decreases command.len() - pos,
{
    lemma_skip_bounds(command, pos);
    let b = skip_spaces(command, pos);
    lemma_read_spaces(command, s, pos);
    if b < command.len() {
        assert(!space(command[b])) by {
            lemma_stops(command, pos);
        }
        assert(ordinary(command[b]));
        let first = read_on(s, command[b]);
        lemma_read_word(command, first, b + 1);
        let e = skip_word(command, b);
        assert(e == skip_word(command, b + 1));
        assert(first.word + command.subrange(b + 1, e) =~= command.subrange(b, e));
        let word = command.subrange(b, e);
        let done = Reading { word, ..first };
        if e < command.len() {
            assert(space(command[e])) by {
                lemma_word_stops(command, b);
            }
            assert(ordinary(command[e]));
            let after = read_on(done, command[e]);
            assert(after == Reading { words: s.words.push(word), ..s });
            lemma_plain_words(command, after, e + 1);
            lemma_words_skip(command, e);
            assert(words_from(command, pos) =~= seq![word] + words_from(command, e));
            assert(s.words.push(word) + words_from(command, e + 1) =~= s.words + words_from(
                command,
                pos,
            ));
        } else {
            assert(words_from(command, e) =~= Seq::empty());
            assert(words_from(command, pos) =~= seq![word] + words_from(command, e));
            assert(s.words.push(word) =~= s.words + words_from(command, pos));
        }
    } else {
        assert(words_from(command, pos) =~= Seq::empty());
        assert(s.words + words_from(command, pos) =~= s.words);
    }
}

proof fn lemma_stops(s: Seq<char>, pos: int)
    requires
        0 <= pos <= s.len(),
    ensures
        skip_spaces(s, pos) < s.len() ==> !space(s[skip_spaces(s, pos)]),
    decreases s.len() - pos,
{
    if pos < s.len() && space(s[pos]) {
        lemma_stops(s, pos + 1);
    }
}

proof fn lemma_word_stops(s: Seq<char>, pos: int)
    requires
        0 <= pos <= s.len(),
    ensures
        skip_word(s, pos) < s.len() ==> space(s[skip_word(s, pos)]),
    decreases s.len() - pos,
{
    if pos < s.len() && !space(s[pos]) {
        lemma_word_stops(s, pos + 1);
    }
}

proof fn lemma_words_skip(s: Seq<char>, pos: int)
    requires
        0 <= pos < s.len(),
        space(s[pos]),
    ensures
        words_from(s, pos) == words_from(s, pos + 1),
{
    assert(skip_spaces(s, pos) == skip_spaces(s, pos + 1));
    lemma_skip_bounds(s, pos);
    lemma_skip_bounds(s, pos + 1);
}

/// A command without quotes and backslashes is split at its blanks, and is never refused.
pub proof fn law_plain_command_splits_at_blanks(command: Seq<char>, what: Seq<char>)
    requires
        forall|i: int| 0 <= i < command.len() ==> ordinary(#[trigger] command[i]),
    ensures
        command_words(command, what) == Ok::<_, Seq<char>>(words_of(command)),
{
    lemma_plain_words(command, unread(), 0);
    assert(unread().words + words_from(command, 0) =~= words_from(command, 0));
}

/// A variable of an agent's environment.
#[derive(Debug, Clone, PartialEq, Eq)]
pub struct LauncherEnvironment {
    pub name: String,
    pub value: String,
    pub redacted: bool,
}

pub struct VariableView {
    pub name: Seq<char>,
    pub value: Seq<char>,
    pub redacted: bool,
}

impl View for LauncherEnvironment {
    type V = VariableView;

    open spec fn view(&self) -> VariableView {
        VariableView { name: self.name@, value: self.value@, redacted: self.redacted }
    }
}

/// What is said of a name that no variable can have.
pub open spec fn bad_variable(name: Seq<char>, harness: Seq<char>) -> Seq<char> {
    "invalid environment variable name `"@ + name + "` in "@ + harness + " connection profile"@
}

/// Checks the name of a variable: letters, digits and underscores, no digit first.
pub fn validate_environment_name(name: &str, harness: &str) -> (r: Result<(), Failure>)
    ensures
        if template_name(name@) {
            r is Ok
        } else {
            failed(r, bad_variable(name@, harness@))
        },
{
    if valid_template_name(name) {
        Ok(())
    } else {
        let head = cat4("invalid environment variable name `", name, "` in ", harness);
        fail(cat2(head.as_str(), " connection profile"))
    }
}

/// Whether a variable is by its name one whose value is not to be shown.
pub open spec fn sensitive(name: Seq<char>) -> bool {
    let upper = uppered(name);
    contains_text(upper, "TOKEN"@) || contains_text(upper, "KEY"@) || contains_text(
        upper,
        "SECRET"@,
    ) || contains_text(upper, "PASSWORD"@)
}

pub fn environment_name_is_sensitive(name: &str) -> (r: bool)
    ensures
        r == sensitive(name@),
{
    let upper = to_upper(name);
    contains(upper.as_str(), "TOKEN") || contains(upper.as_str(), "KEY") || contains(
        upper.as_str(),
        "SECRET",
    ) || contains(upper.as_str(), "PASSWORD")
}

/// What is said where a variable is to be taken from one that is not set.
pub open spec fn missing_variable(
    harness: Seq<char>,
    profile: Seq<char>,
    from: Seq<char>,
    name: Seq<char>,
) -> Seq<char> {
    harness + " connection profile `"@ + profile + "` requires environment variable `"@ + from
        + "` for `"@ + name + "`"@
}

/// The variables that an agent is given, and those that are taken from it, once the first
/// `entries` of its connection are in place; or why one of them cannot be. A variable
/// that is taken from another one of the surrounding environment hides that one.
pub open spec fn given(
    entries: Seq<(Seq<char>, EnvironmentValueView)>,
    unset: Seq<Seq<char>>,
    surrounding: Seq<(Seq<char>, Seq<char>)>,
    harness: Seq<char>,
    profile: Seq<char>,
) -> Result<(Seq<Seq<char>>, Seq<VariableView>), Seq<char>>
    decreases entries.len(),
{
    if entries.len() == 0 {
        Ok((unset, Seq::empty()))
    } else {
        match given(entries.drop_last(), unset, surrounding, harness, profile) {
            Err(message) => Err(message),
            Ok(so_far) => {
                let name = entries.last().0;
                if !template_name(name) {
                    Err(bad_variable(name, harness))
                } else {
                    match entries.last().1 {
                        EnvironmentValueView::Literal(value) => Ok(
                            (
                                so_far.0,
                                so_far.1.push(
                                    VariableView { name, value, redacted: sensitive(name) },
                                ),
                            ),
                        ),
                        EnvironmentValueView::FromEnvironment(from) => if !template_name(from) {
                            Err(bad_variable(from, harness))
                        } else {
                            match lookup(surrounding, from) {
                                None => Err(missing_variable(harness, profile, from, name)),
                                Some(value) => Ok(
                                    (
                                        if from != name && !so_far.0.contains(from) {
                                            so_far.0.push(from)
                                        } else {
                                            so_far.0
                                        },
                                        so_far.1.push(VariableView { name, value, redacted: true }),
                                    ),
                                ),
                            }
                        },
                    }
                }
            },
        }
    }
}

/// An entry that is refused decides, whatever follows it.
proof fn lemma_refused_entry(
    entries: Seq<(Seq<char>, EnvironmentValueView)>,
    n: int,
    unset: Seq<Seq<char>>,
    surrounding: Seq<(Seq<char>, Seq<char>)>,
    harness: Seq<char>,
    profile: Seq<char>,
)
    requires
        0 <= n <= entries.len(),
        given(entries.take(n), unset, surrounding, harness, profile) is Err,
    ensures
        given(entries, unset, surrounding, harness, profile) == given(
            entries.take(n),
            unset,
            surrounding,
            harness,
            profile,
        ),
    decreases entries.len(),
{
    if n < entries.len() {
        assert(entries.drop_last().take(n) =~= entries.take(n));
        lemma_refused_entry(entries.drop_last(), n, unset, surrounding, harness, profile);
    } else {
        assert(entries.take(n) =~= entries);
    }
}

/// Puts an agent's environment together. `surrounding` holds the variables that are set.
pub fn resolve_environment(
    entries: &Vec<(String, ConnectionEnvironmentValue)>,
    unset: Vec<String>,
    surrounding: &Vec<(String, String)>,
    harness: &str,
    profile: &str,
) -> (r: Result<(Vec<String>, Vec<LauncherEnvironment>), Failure>)
    ensures
        match r {
            Ok(found) => given(
                named(entries@),
                texts(unset@),
                named(surrounding@),
                harness@,
                profile@,
            ) == Ok::<_, Seq<char>>((texts(found.0@), seen_all(found.1@))),
            Err(e) => given(
                named(entries@),
                texts(unset@),
                named(surrounding@),
                harness@,
                profile@,
            ) == Err::<(Seq<Seq<char>>, Seq<VariableView>), _>(e.message@),
        },
{
    let ghost all = named(entries@);
    let ghost start = texts(unset@);
    let ghost around = named(surrounding@);
    let mut hidden = unset;
    let mut variables: Vec<LauncherEnvironment> = Vec::new();
    let mut i: usize = 0;
    assert(all.take(0) =~= Seq::empty());
    assert(seen_all(variables@) =~= Seq::empty());
    while i < entries.len()
        invariant
            i <= entries@.len(),
            all == named(entries@),
            start == texts(unset@),
            around == named(surrounding@),
            given(all.take(i as int), start, around, harness@, profile@) == Ok::<_, Seq<char>>(
                (texts(hidden@), seen_all(variables@)),
            ),
        decreases entries@.len() - i,
    {
        proof {
            let upto = all.take(i + 1);
            assert(upto.drop_last() =~= all.take(i as int));
            assert(upto.last() == all[i as int]);
            if given(upto, start, around, harness@, profile@) is Err {
                lemma_refused_entry(all, i + 1, start, around, harness@, profile@);
            }
        }
        let name = entries[i].0.as_str();
        match validate_environment_name(name, harness) {
            Ok(_) => {},
            Err(e) => {
                return Err(e);
            },
        }
        let variable = match &entries[i].1 {
            ConnectionEnvironmentValue::Literal(value) => LauncherEnvironment {
                name: name.to_owned(),
                value: value.clone(),
                redacted: environment_name_is_sensitive(name),
            },
            ConnectionEnvironmentValue::FromEnvironment(reference) => {
                let from = reference.from_env.as_str();
                match validate_environment_name(from, harness) {
                    Ok(_) => {},
                    Err(e) => {
                        return Err(e);
                    },
                }
                let value = match find_entry(surrounding, from) {
                    Some(k) => surrounding[k].1.clone(),
                    None => {
                        let head = cat4(
                            harness,
                            " connection profile `",
                            profile,
                            "` requires environment variable `",
                        );
                        let tail = cat4(from, "` for `", name, "`");
                        proof {
                            assert(head@ + tail@ =~= missing_variable(
                                harness@,
                                profile@,
                                from@,
                                name@,
                            ));
                        }
                        return fail(cat2(head.as_str(), tail.as_str()));
                    },
                };
                if !equal(from, name) && !holds(&hidden, from) {
                    push_text(&mut hidden, from);
                }
                LauncherEnvironment { name: name.to_owned(), value, redacted: true }
            },
        };
        let ghost before = variables@;
        variables.push(variable);
        assert(seen_all(variables@) =~= seen_all(before).push(variable@));
        i += 1;
    }
    assert(all.take(i as int) =~= all);
    Ok((hidden, variables))
}

/// A command with variables set.
pub open spec fn with_variables(c: CommandView, variables: Seq<VariableView>) -> CommandView
    decreases variables.len(),
{
    if variables.len() == 0 {
        c
    } else {
        let so_far = with_variables(c, variables.drop_last());
        let v = variables.last();
        CommandView {
            env: so_far.env.push((v.name, v.value)),
            secret_env: if v.redacted {
                so_far.secret_env.push(v.name)
            } else {
                so_far.secret_env
            },
            ..so_far
        }
    }
}

/// A command in an agent's environment.
pub open spec fn in_environment(
    c: CommandView,
    unset: Seq<Seq<char>>,
    variables: Seq<VariableView>,
) -> CommandView {
    with_variables(CommandView { env_remove: c.env_remove + unset, ..c }, variables)
}

/// Puts a command in an agent's environment.
pub fn with_environment(
    spec: CommandSpec,
    unset: &Vec<String>,
    variables: &Vec<LauncherEnvironment>,
) -> (r: CommandSpec)
    ensures
        r@ == in_environment(spec@, texts(unset@), seen_all(variables@)),
{
    let ghost c = spec@;
    let mut command = spec;
    let mut i: usize = 0;
    assert(c.env_remove + texts(unset@).take(0) =~= c.env_remove);
    while i < unset.len()
        invariant
            i <= unset@.len(),
            command@ == (CommandView {
                env_remove: c.env_remove + texts(unset@).take(i as int),
                ..c
            }),
        decreases unset@.len() - i,
    {
        command = command.remove_env(unset[i].as_str());
        i += 1;
        assert(c.env_remove + texts(unset@).take(i as int) =~= (c.env_remove + texts(unset@).take(
            i - 1,
        )).push(unset@[i - 1]@));
    }
    assert(texts(unset@).take(i as int) =~= texts(unset@));
    let ghost base = command@;
    let ghost all = seen_all(variables@);
    let mut k: usize = 0;
    assert(all.take(0) =~= Seq::empty());
    while k < variables.len()
        invariant
            k <= variables@.len(),
            all == seen_all(variables@),
            command@ == with_variables(base, all.take(k as int)),
        decreases variables@.len() - k,
    {
        let variable = &variables[k];
        proof {
            let upto = all.take(k + 1);
            assert(upto.drop_last() =~= all.take(k as int));
            assert(upto.last() == variable@);
        }
        if variable.redacted {
            command = command.secret_env(variable.name.as_str(), variable.value.as_str());
        } else {
            command = command.env(variable.name.as_str(), variable.value.as_str());
        }
        k += 1;
    }
    assert(all.take(k as int) =~= all);
    command
}

/// No value that is not to be shown is shown: a variable with a sensitive name, or one
/// that is taken from the surrounding environment, is covered when its command is
/// displayed.
pub proof fn law_secrets_are_covered(
    c: CommandView,
    entries: Seq<(Seq<char>, EnvironmentValueView)>,
    unset: Seq<Seq<char>>,
    surrounding: Seq<(Seq<char>, Seq<char>)>,
    harness: Seq<char>,
    profile: Seq<char>,
    i: int,
)
    requires
        0 <= i < entries.len(),
        sensitive(entries[i].0) || entries[i].1 is FromEnvironment,
    ensures
        given(entries, unset, surrounding, harness, profile) matches Ok(found) ==> in_environment(
            c,
            found.0,
            found.1,
        ).secret_env.contains(entries[i].0),
    decreases entries.len(),
{
    let front = entries.drop_last();
    let all = given(entries, unset, surrounding, harness, profile);
    if all is Ok {
        let found = all->Ok_0;
        let earlier = given(front, unset, surrounding, harness, profile);
        let now = in_environment(c, found.0, found.1);
        let base = CommandView { env_remove: c.env_remove + found.0, ..c };
        assert(found.1.drop_last() =~= earlier->Ok_0.1);
        let before = with_variables(base, earlier->Ok_0.1);
        if i < front.len() {
            law_secrets_are_covered(c, front, unset, surrounding, harness, profile, i);
            assert(front[i] == entries[i]);
            let prior = in_environment(c, earlier->Ok_0.0, earlier->Ok_0.1);
            lemma_same_secrets(
                base,
                CommandView { env_remove: c.env_remove + earlier->Ok_0.0, ..c },
                earlier->Ok_0.1,
            );
            assert(before.secret_env == prior.secret_env);
            let k = choose|k: int|
                0 <= k < prior.secret_env.len() && prior.secret_env[k] == entries[i].0;
            assert(now.secret_env[k] == entries[i].0);
        } else {
            assert(now.secret_env.last() == entries[i].0);
        }
    }
}

proof fn lemma_same_secrets(a: CommandView, b: CommandView, variables: Seq<VariableView>)
    requires
        a.secret_env == b.secret_env,
    ensures
        with_variables(a, variables).secret_env == with_variables(b, variables).secret_env,
    decreases variables.len(),
{
    if variables.len() > 0 {
        lemma_same_secrets(a, b, variables.drop_last());
    }
}

/// An agent is given the variables of its connection, each under its own name and in order:
/// one that is written out has the value that is written, and one that is taken from the
/// surrounding environment has the value there and is not shown.
pub proof fn law_variables_are_given_as_written(
    entries: Seq<(Seq<char>, EnvironmentValueView)>,
    unset: Seq<Seq<char>>,
    surrounding: Seq<(Seq<char>, Seq<char>)>,
    harness: Seq<char>,
    profile: Seq<char>,
    i: int,
)
    requires
        0 <= i < entries.len(),
    ensures
        given(entries, unset, surrounding, harness, profile) matches Ok(found) ==> {
            &&& found.1.len() == entries.len()
            &&& found.1[i].name == entries[i].0
            &&& template_name(entries[i].0)
            &&& entries[i].1 matches EnvironmentValueView::Literal(value) ==> found.1[i].value
                == value && found.1[i].redacted == sensitive(entries[i].0)
            &&& entries[i].1 matches EnvironmentValueView::FromEnvironment(from) ==> {
                &&& lookup(surrounding, from) == Some(found.1[i].value)
                &&& found.1[i].redacted
                &&& from != entries[i].0 ==> found.0.contains(from)
            }
            &&& unset.is_prefix_of(found.0)
        },
    decreases entries.len(),
{
    let rest = entries.drop_last();
    if given(entries, unset, surrounding, harness, profile) is Ok {
        let found = given(entries, unset, surrounding, harness, profile)->Ok_0;
        let so_far = given(rest, unset, surrounding, harness, profile)->Ok_0;
        if rest.len() > 0 {
            let k = if i < rest.len() {
                i
            } else {
                0
            };
            law_variables_are_given_as_written(rest, unset, surrounding, harness, profile, k);
            if i < rest.len() {
                assert(rest[i] == entries[i]);
                assert(found.1[i] == so_far.1[i]);
                if entries[i].1 is FromEnvironment && entries[i].1->FromEnvironment_0
                    != entries[i].0 {
                    let from = entries[i].1->FromEnvironment_0;
                    let at = choose|at: int| 0 <= at < so_far.0.len() && so_far.0[at] == from;
                    assert(found.0[at] == from);
                }
            }
        } else {
            assert(so_far.0.subrange(0, unset.len() as int) =~= unset);
        }
        assert(found.0.subrange(0, unset.len() as int) =~= so_far.0.subrange(
            0,
            unset.len() as int,
        ));
        if i == rest.len() && entries[i].1 is FromEnvironment && entries[i].1->FromEnvironment_0
            != entries[i].0 {
            let from = entries[i].1->FromEnvironment_0;
            if so_far.0.contains(from) {
                assert(found.0 == so_far.0);
            } else {
                assert(found.0[so_far.0.len() as int] == from);
            }
        }
    }
}

/// Variables that cannot be given are refused: one whose name no variable can have, and one
/// that is to be taken from a variable that is not set.
pub proof fn law_missing_variables_are_refused(
    entries: Seq<(Seq<char>, EnvironmentValueView)>,
    name: Seq<char>,
    value: EnvironmentValueView,
    unset: Seq<Seq<char>>,
    surrounding: Seq<(Seq<char>, Seq<char>)>,
    harness: Seq<char>,
    profile: Seq<char>,
)
    requires
        given(entries, unset, surrounding, harness, profile) is Ok,
    ensures
        given(entries.push((name, value)), unset, surrounding, harness, profile) is Ok
            <==> template_name(name) && (value matches EnvironmentValueView::FromEnvironment(from)
            ==> template_name(from) && lookup(surrounding, from) is Some),
        given(Seq::empty(), unset, surrounding, harness, profile) == Ok::<_, Seq<char>>(
            (unset, Seq::<VariableView>::empty()),
        ),
{
    assert(entries.push((name, value)).drop_last() =~= entries);
}

/// A command in an environment has every variable that is given, behind those that it had,
/// and loses those that are taken away. Everything else of it stays.
pub proof fn law_commands_get_their_environment(
    c: CommandView,
    unset: Seq<Seq<char>>,
    variables: Seq<VariableView>,
)
    ensures
        ({
            let r = in_environment(c, unset, variables);
            &&& r.program == c.program
            &&& r.cwd == c.cwd
            &&& r.args == c.args
            &&& r.initial_stdin == c.initial_stdin
            &&& r.accepts_stream_messages == c.accepts_stream_messages
            &&& r.env_remove == c.env_remove + unset
            &&& r.env.len() == c.env.len() + variables.len()
            &&& forall|k: int| 0 <= k < c.env.len() ==> #[trigger] r.env[k] == c.env[k]
            &&& forall|k: int|
                0 <= k < variables.len() ==> r.env[c.env.len() + k] == (
                    (#[trigger] variables[k]).name,
                    variables[k].value,
                )
            &&& forall|k: int|
                0 <= k < variables.len() && (#[trigger] variables[k]).redacted
                    ==> r.secret_env.contains(variables[k].name)
        }),
    decreases variables.len(),
{
    let r = in_environment(c, unset, variables);
    if variables.len() > 0 {
        let rest = variables.drop_last();
        let so_far = in_environment(c, unset, rest);
        law_commands_get_their_environment(c, unset, rest);
        assert forall|k: int| 0 <= k < variables.len() implies r.env[c.env.len() + k] == (
            (#[trigger] variables[k]).name,
            variables[k].value,
        ) by {
            if k < rest.len() {
                assert(rest[k] == variables[k]);
                assert(r.env[c.env.len() + k] == so_far.env[c.env.len() + k]);
            }
        }
        assert forall|k: int| 0 <= k < variables.len() && (#[trigger] variables[k]).redacted
            implies r.secret_env.contains(variables[k].name) by {
            if k < rest.len() {
                assert(rest[k] == variables[k]);
                let at = choose|at: int|
                    0 <= at < so_far.secret_env.len() && so_far.secret_env[at]
                        == variables[k].name;
                assert(r.secret_env[at] == variables[k].name);
            } else {
                assert(r.secret_env.last() == variables[k].name);
                assert(r.secret_env[r.secret_env.len() - 1] == variables[k].name);
            }
        }
    }
}

/// A variable whose name holds one of the four words, in small letters or capitals, is not to
/// be shown.
pub proof fn law_what_is_not_to_be_shown(before: Seq<char>, word: Seq<char>, after: Seq<char>)
    requires
        uppered(word) == "TOKEN"@ || uppered(word) == "KEY"@ || uppered(word) == "SECRET"@
            || uppered(word) == "PASSWORD"@,
    ensures
        sensitive(before + word + after),
{
    let name = before + word + after;
    let at = before.len() as int;
    assert(uppered(name).subrange(at, at + word.len()) =~= uppered(word));
    assert(uppered(word).len() == word.len());
    assert(crate::text::occurs_at(uppered(name), uppered(word), at));
}

/// A backslash keeps the next character as it is, outside of single quotes. Within them it is
/// a character like any other, and so are blanks within quotes of either kind.
pub proof fn law_a_backslash_keeps_the_next_character(s: Reading, c: char)
    requires
        !s.escaped,
    ensures
        s.quote != Quote::Single ==> read_on(read_on(s, '\\'), c) == (Reading {
            word: s.word.push(c),
            started: true,
            ..s
        }),
        s.quote == Quote::Single ==> read_on(s, '\\').word == s.word.push('\\') && !read_on(
            s,
            '\\',
        ).escaped,
        s.quote != Quote::Bare ==> read_on(s, ' ').word == s.word.push(' ') && read_on(s, ' ').words
            == s.words,
        s.quote == Quote::Bare && s.started ==> read_on(s, ' ').words == s.words.push(s.word),
        s.quote == Quote::Bare ==> read_on(s, '"').quote == Quote::Double && read_on(
            s,
            '\'',
        ).quote == Quote::Single,
        s.quote == Quote::Double ==> read_on(s, '"').quote == Quote::Bare && read_on(s, '\'').word
            == s.word.push('\''),
        s.quote == Quote::Single ==> read_on(s, '\'').quote == Quote::Bare && read_on(s, '"').word
            == s.word.push('"'),
{
    crate::text_laws::law_what_is_white_space(' ');
    crate::text_laws::law_what_is_white_space('"');
    crate::text_laws::law_what_is_white_space('\'');
    crate::text_laws::law_what_is_white_space('\\');
}

} // verus!
