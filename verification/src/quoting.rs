//! Quoted words are read back as they were.
use crate::launch::{command_words, read_on, read_rest, unread, Quote, Reading};
use crate::model_confusions::single_quoted;
use crate::process::{
    displayed, plain_char, plain_word, quoted, settings, shell_quoted, CommandView,
};
use crate::text::{find_from, joined, lemma_find_from, occurs_at, replaced_from, space};
use vstd::prelude::*;

verus! {

/// Two texts are read one after the other.
proof fn lemma_read_both(a: Seq<char>, b: Seq<char>, s: Reading, pos: int)
    requires
        0 <= pos <= a.len(),
    ensures
        read_rest(a + b, s, pos) == read_rest(b, read_rest(a, s, pos), 0),
    decreases a.len() - pos,
{
    if pos < a.len() {
        assert((a + b)[pos] == a[pos]);
        lemma_read_both(a, b, read_on(s, a[pos]), pos + 1);
    } else {
        lemma_read_shifted(a, b, s, 0);
    }
}

proof fn lemma_read_shifted(a: Seq<char>, b: Seq<char>, s: Reading, pos: int)
    requires
        0 <= pos <= b.len(),
    ensures
        read_rest(a + b, s, a.len() + pos) == read_rest(b, s, pos),
    decreases b.len() - pos,
{
    if pos < b.len() {
        assert((a + b)[a.len() + pos] == b[pos]);
        lemma_read_shifted(a, b, read_on(s, b[pos]), pos + 1);
    }
}

/// A reading whose word has grown.
spec fn grown(s: Reading, w: Seq<char>) -> Reading {
    Reading { word: s.word + w, started: true, ..s }
}

/// In single quotes, all but a single quote is taken as it is.
proof fn lemma_read_single(w: Seq<char>, s: Reading, pos: int)
    requires
        s.quote == Quote::Single,
        !s.escaped,
        s.started,
        0 <= pos <= w.len(),
        forall|i: int| pos <= i < w.len() ==> #[trigger] w[i] != '\'',
    ensures
        read_rest(w, s, pos) == grown(s, w.subrange(pos, w.len() as int)),
    decreases w.len() - pos,
{
    let rest = w.subrange(pos, w.len() as int);
    if pos < w.len() {
        let next = read_on(s, w[pos]);
        assert(next == Reading { word: s.word.push(w[pos]), ..s });
        lemma_read_single(w, next, pos + 1);
        assert(next.word + w.subrange(pos + 1, w.len() as int) =~= s.word + rest);
    } else {
        assert(s.word + rest =~= s.word);
    }
}

/// What stands for a single quote in single quotes.
proof fn lemma_read_quote(s: Reading)
    requires
        s.quote == Quote::Single,
        !s.escaped,
        s.started,
    ensures
        read_rest("'\"'\"'"@, s, 0) == grown(s, seq!['\'']),
{
    reveal_strlit("'\"'\"'");
    reveal_with_fuel(read_rest, 6);
    let q = "'\"'\"'"@;
    assert(q[0] == '\'' && q[1] == '"' && q[2] == '\'' && q[3] == '"' && q[4] == '\'');
    assert(q.len() == 5);
    assert(s.word.push('\'') =~= s.word + seq!['\'']);
}

/// What was put into single quotes is read in them.
proof fn lemma_read_inner(w: Seq<char>, s: Reading, pos: int)
    requires
        s.quote == Quote::Single,
        !s.escaped,
        s.started,
        0 <= pos <= w.len(),
    ensures
        read_rest(replaced_from(w, "'"@, "'\"'\"'"@, pos), s, 0) == grown(
            s,
            w.subrange(pos, w.len() as int),
        ),
    decreases w.len() - pos,
{
    reveal_strlit("'");
    let one = "'"@;
    let all = w.subrange(pos, w.len() as int);
    lemma_find_from(w, one, pos);
    match find_from(w, one, pos) {
        None => {
            assert forall|i: int| 0 <= i < all.len() implies #[trigger] all[i] != '\'' by {
                if all[i] == '\'' {
                    assert(w.subrange(pos + i, pos + i + 1) =~= one);
                    assert(occurs_at(w, one, pos + i));
                }
            }
            lemma_read_single(all, s, 0);
            assert(all.subrange(0, all.len() as int) =~= all);
        },
        Some(i) => {
            let head = w.subrange(pos, i);
            assert forall|k: int| 0 <= k < head.len() implies #[trigger] head[k] != '\'' by {
                if head[k] == '\'' {
                    assert(w.subrange(pos + k, pos + k + 1) =~= one);
                    assert(occurs_at(w, one, pos + k));
                }
            }
            assert(w[i] == '\'') by {
                assert(w.subrange(i, i + 1)[0] == w[i]);
            }
            let q = "'\"'\"'"@;
            let rest = replaced_from(w, one, q, i + 1);
            lemma_read_both(head + q, rest, s, 0);
            lemma_read_both(head, q, s, 0);
            lemma_read_single(head, s, 0);
            assert(head.subrange(0, head.len() as int) =~= head);
            let a = grown(s, head);
            lemma_read_quote(a);
            let b = grown(a, seq!['\'']);
            lemma_read_inner(w, b, i + 1);
            assert(s.word + head + seq!['\''] + w.subrange(i + 1, w.len() as int) =~= s.word
                + all);
        },
    }
}

/// A text in single quotes adds exactly that text to the word that is read.
pub proof fn law_single_quotes_keep_a_text(w: Seq<char>, s: Reading)
    requires
        s.quote == Quote::Bare,
        !s.escaped,
    ensures
        read_rest(single_quoted(w), s, 0) == (Reading { word: s.word + w, started: true, ..s }),
{
    reveal_strlit("'");
    let one = "'"@;
    let inner = replaced_from(w, one, "'\"'\"'"@, 0);
    let open = Reading { quote: Quote::Single, started: true, ..s };
    reveal_with_fuel(read_rest, 2);
    assert(read_rest(one, s, 0) == open);
    lemma_read_inner(w, open, 0);
    assert(w.subrange(0, w.len() as int) =~= w);
    lemma_read_both(one + inner, one, s, 0);
    lemma_read_both(one, inner, s, 0);
    let closed = grown(open, w);
    assert(read_rest(one, closed, 0) == read_on(closed, '\''));
}

/// Plain characters are taken as they are.
proof fn lemma_read_plain(w: Seq<char>, s: Reading, pos: int)
    requires
        s.quote == Quote::Bare,
        !s.escaped,
        0 <= pos < w.len(),
        forall|i: int| 0 <= i < w.len() ==> plain_char(#[trigger] w[i]),
    ensures
        read_rest(w, s, pos) == grown(s, w.subrange(pos, w.len() as int)),
    decreases w.len() - pos,
{
    let c = w[pos];
    assert(plain_char(c));
    assert(!space(c) && c != '\\' && c != '\'' && c != '"');
    let next = read_on(s, c);
    assert(next == Reading { word: s.word.push(c), started: true, ..s });
    let rest = w.subrange(pos, w.len() as int);
    if pos + 1 < w.len() {
        lemma_read_plain(w, next, pos + 1);
        assert(next.word + w.subrange(pos + 1, w.len() as int) =~= s.word + rest);
    } else {
        assert(read_rest(w, next, pos + 1) == next);
        assert(s.word.push(c) =~= s.word + rest);
    }
}

/// A quoted word is read as that word.
proof fn lemma_read_word(w: Seq<char>, s: Reading)
    requires
        s.quote == Quote::Bare,
        !s.escaped,
    ensures
        read_rest(shell_quoted(w), s, 0) == grown(s, w),
{
    if plain_word(w) {
        lemma_read_plain(w, s, 0);
        assert(w.subrange(0, w.len() as int) =~= w);
    } else {
        law_single_quotes_keep_a_text(w, s);
    }
}

/// Whether a text is one of the ways in which a word is quoted.
pub open spec fn stands_for(text: Seq<char>, word: Seq<char>) -> bool {
    text == shell_quoted(word) || text == single_quoted(word)
}

/// After words that were quoted and put side by side, the last of them is being read.
proof fn lemma_read_words(words: Seq<Seq<char>>, all: Seq<Seq<char>>)
    requires
        words.len() > 0,
        all.len() == words.len(),
        forall|i: int| 0 <= i < words.len() ==> stands_for(#[trigger] all[i], words[i]),
    ensures
        read_rest(joined(all, " "@), unread(), 0) == (Reading {
            words: words.drop_last(),
            word: words.last(),
            quote: Quote::Bare,
            escaped: false,
            started: true,
        }),
    decreases words.len(),
{
    reveal_strlit(" ");
    let none = Seq::<char>::empty();
    let last = all.last();
    assert(stands_for(all[words.len() - 1], words.last()));
    if words.len() == 1 {
        lemma_read_either(last, words[0], unread());
        assert(none + words[0] =~= words[0]);
        assert(words.drop_last() =~= Seq::empty());
    } else {
        let upper = words.drop_last();
        let most = all.drop_last();
        assert forall|i: int| 0 <= i < upper.len() implies stands_for(
            #[trigger] most[i],
            upper[i],
        ) by {
            assert(most[i] == all[i]);
        }
        lemma_read_words(upper, most);
        let text = joined(most, " "@);
        lemma_read_both(text + " "@, last, unread(), 0);
        lemma_read_both(text, " "@, unread(), 0);
        let before = read_rest(text, unread(), 0);
        reveal_with_fuel(read_rest, 2);
        let after = read_rest(" "@, before, 0);
        assert(after == read_on(before, ' '));
        assert(upper.drop_last().push(upper.last()) =~= upper);
        assert(after == Reading {
            words: upper,
            word: none,
            quote: Quote::Bare,
            escaped: false,
            started: false,
        });
        lemma_read_either(last, words.last(), after);
        assert(none + words.last() =~= words.last());
    }
}

proof fn lemma_read_either(text: Seq<char>, w: Seq<char>, s: Reading)
    requires
        s.quote == Quote::Bare,
        !s.escaped,
        stands_for(text, w),
    ensures
        read_rest(text, s, 0) == grown(s, w),
{
    if text == shell_quoted(w) {
        lemma_read_word(w, s);
    } else {
        law_single_quotes_keep_a_text(w, s);
    }
}

/// Words that are quoted in one of the two ways and put side by side are taken apart into
/// the same words.
pub proof fn law_quoted_texts_are_read_back(
    words: Seq<Seq<char>>,
    all: Seq<Seq<char>>,
    what: Seq<char>,
)
    requires
        all.len() == words.len(),
        forall|i: int| 0 <= i < words.len() ==> stands_for(#[trigger] all[i], words[i]),
    ensures
        command_words(joined(all, " "@), what) == Ok::<_, Seq<char>>(words),
{
    if words.len() > 0 {
        lemma_read_words(words, all);
        assert(words.drop_last().push(words.last()) =~= words);
    } else {
        assert(words =~= Seq::empty());
    }
}

/// Words that are quoted where they need it and put side by side are taken apart into the
/// same words.
pub proof fn law_quoted_words_are_read_back(words: Seq<Seq<char>>, what: Seq<char>)
    ensures
        command_words(joined(quoted(words), " "@), what) == Ok::<_, Seq<char>>(words),
{
    law_quoted_texts_are_read_back(words, quoted(words), what);
}

/// Words that are each put in single quotes, and side by side, are taken apart into the same
/// words.
pub proof fn law_single_quoted_words_are_read_back(words: Seq<Seq<char>>, what: Seq<char>)
    ensures
        command_words(joined(words.map_values(|w: Seq<char>| single_quoted(w)), " "@), what) == Ok::<
            _,
            Seq<char>,
        >(words),
{
    law_quoted_texts_are_read_back(words, words.map_values(|w: Seq<char>| single_quoted(w)), what);
}

/// Whether a command ends inside a quote.
pub open spec fn ends_in_quote(command: Seq<char>) -> bool {
    read_rest(command, unread(), 0).quote != Quote::Bare
}

/// Whether a command ends right after a backslash that takes the next character as it is.
pub open spec fn ends_in_escape(command: Seq<char>) -> bool {
    read_rest(command, unread(), 0).escaped
}

/// A command is refused if and only if it ends inside a quote, or right after a backslash
/// outside of single quotes.
pub proof fn law_only_open_commands_are_refused(command: Seq<char>, what: Seq<char>)
    ensures
        command_words(command, what) is Err <==> ends_in_quote(command) || ends_in_escape(command),
{
}

/// A quote or a backslash that is put behind a complete command leaves it open.
pub proof fn law_an_added_quote_or_backslash_opens_a_command(command: Seq<char>, what: Seq<char>)
    requires
        command_words(command, what) is Ok,
    ensures
        ends_in_quote(command.push('\'')),
        ends_in_quote(command.push('"')),
        ends_in_escape(command.push('\\')),
{
    lemma_read_one_more(command, '\'');
    lemma_read_one_more(command, '"');
    lemma_read_one_more(command, '\\');
}

proof fn lemma_read_one_more(command: Seq<char>, c: char)
    ensures
        read_rest(command.push(c), unread(), 0) == read_on(read_rest(command, unread(), 0), c),
{
    let one = seq![c];
    assert(command.push(c) =~= command + one);
    lemma_read_both(command, one, unread(), 0);
    reveal_with_fuel(read_rest, 2);
}

/// A command of white space alone has no words.
pub proof fn law_blank_commands_have_no_words(command: Seq<char>, what: Seq<char>)
    requires
        forall|i: int| 0 <= i < command.len() ==> space(#[trigger] command[i]),
    ensures
        command_words(command, what) == Ok::<_, Seq<char>>(Seq::<Seq<char>>::empty()),
{
    lemma_read_blank(command, 0);
}

proof fn lemma_read_blank(command: Seq<char>, pos: int)
    requires
        0 <= pos <= command.len(),
        forall|i: int| 0 <= i < command.len() ==> space(#[trigger] command[i]),
    ensures
        read_rest(command, unread(), pos) == unread(),
    decreases command.len() - pos,
{
    if pos < command.len() {
        assert(space(command[pos]));
        lemma_read_blank(command, pos + 1);
    }
}

/// A command that is shown, and has no settings of its own, is taken apart into its program
/// and its arguments.
pub proof fn law_shown_commands_are_read_back(c: CommandView, what: Seq<char>)
    requires
        c.env.len() == 0,
    ensures
        command_words(displayed(c), what) == Ok::<_, Seq<char>>(seq![c.program] + c.args),
{
    let words = seq![c.program] + c.args;
    assert(quoted(words) =~= settings(c, 0).push(shell_quoted(c.program)) + quoted(c.args));
    law_quoted_words_are_read_back(words, what);
}

} // verus!
