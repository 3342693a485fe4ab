//! How a new project is bootstrapped: the context it starts from, the files that are put
//! in place, and the agenda that has to come of it.
use crate::agenda::{law_slices_are_numbered_files, parse_slice_name, slice_name, AgendaFile};
use crate::cli::{template_name, valid_template_name};
use crate::failure::{fail, fail_with, failed, outcome, Failure};
use crate::markers::{
    count, count_chars, free_of, lemma_counted_once, lemma_middle, lemma_never, lemma_once,
    lemma_part_free, marker, only_at, Count, Found,
};
use crate::names::{Harness, HarnessView};
use crate::path::{join_path, joined_path};
use crate::process::{bare_command, CommandSpec, CommandView};
use crate::table::{find_entry, lookup, named, names_of};
use crate::text::{
    cat2, cat3, cat4, cat5, chars_of, digit, ends, ends_with, equal, find_chars, find_from, holds,
    join, joined, lemma_find_from, lines, lines_of, occurs_at, push_text, replace, replaced,
    split_once, starts, starts_with, str_option, string_of, text_option, texts, trim, trim_end,
    trimmed, trimmed_end,
};
use crate::text_laws::{blank, law_lines_end_at_line_feeds, unbroken};
use vstd::prelude::*;
use vstd::string::*;

verus! {

pub const CONFIG_PATH: &'static str = "openspec/config.yaml";

pub const AGENTS_PATH: &'static str = "AGENTS.md";

pub const SLICES_PATH: &'static str = "automation/slices";

pub const FINAL_SLICE: &'static str = "9999-project-acceptance.md";

pub const MANAGED_START: &'static str = "<!-- BEGIN OPSX-BUILD MANAGED -->";

pub const MANAGED_END: &'static str = "<!-- END OPSX-BUILD MANAGED -->";

pub const MODEL_CONFUSIONS_PLACEHOLDER: &'static str = "{{OPSX_BUILD_MODEL_CONFUSIONS}}";

pub const WORKER_CAPACITY_PLACEHOLDER: &'static str = "{{OPSX_BUILD_WORKER_CAPACITY}}";

pub use crate::prompts::{BOOTSTRAP_CHANGE, BOOTSTRAP_PATH};

pub const FRONTIER_WORKER: &'static str =
    "Implementation worker capacity: the worker is a frontier-capable model (--frontier-worker). Size coherent, testable delivery slices for that capability rather than imposing a smaller local model's limitations. The worker still needs explicit acceptance criteria and enough durable context to implement and verify each slice independently.";

pub const LOCAL_WORKER: &'static str =
    "Implementation worker capacity: assume the worker is a smaller local coding model, substantially less capable than the frontier planner. Size coherent, testable delivery slices that this worker can implement and verify reliably in one OpenSpec cycle. Provide focused scope, concrete implementation guidance, explicit acceptance criteria, and enough durable context to work without the planner's conversation history.";

/// What the planner is told of the worker.
pub open spec fn capacity(frontier_worker: bool) -> Seq<char> {
    if frontier_worker {
        FRONTIER_WORKER@
    } else {
        LOCAL_WORKER@
    }
}

pub fn worker_capacity_guidance(frontier_worker: bool) -> (r: &'static str)
    ensures
        r@ == capacity(frontier_worker),
{
    if frontier_worker {
        FRONTIER_WORKER
    } else {
        LOCAL_WORKER
    }
}

/// The bootstrap instructions, from the text that leaves a place for the worker's capacity.
pub fn instructions(template: &str, frontier_worker: bool) -> (r: String)
    ensures
        r@ == replaced(template@, WORKER_CAPACITY_PLACEHOLDER@, capacity(frontier_worker)),
{
    proof {
        reveal_strlit("{{OPSX_BUILD_WORKER_CAPACITY}}");
    }
    replace(template, WORKER_CAPACITY_PLACEHOLDER, worker_capacity_guidance(frontier_worker))
}

/// The command that sets OpenSpec up without asking, for a harness.
pub fn init_command(repo: &str, harness: &Harness) -> (r: CommandSpec)
    ensures
        r@ == (CommandView {
            args: seq!["init"@, "--tools"@, harness@.name, "--no-animation"@, "."@],
            ..bare_command("openspec"@, repo@)
        }),
{
    let r = CommandSpec::new("openspec", repo).arg("init").arg("--tools").arg(
        harness.name.as_str(),
    ).arg(
        "--no-animation",
    ).arg(".");
    assert(r@.args =~= seq!["init"@, "--tools"@, harness@.name, "--no-animation"@, "."@]);
    r
}

pub const CONFIG_HEAD: &'static str =
    "schema: spec-driven\n\n# Project context supplied to artifact-generating agents.\ncontext: |\n";

pub const CONFIG_RULES: &'static str =
    "\nrules:\n  proposal:\n    - Keep each change small enough to implement and verify independently.\n  specs:\n    - Specify observable behaviour rather than implementation details.\n  design:\n    - Treat third-party dependency choices as revisable design decisions, not requirements.\n    - Validate material dependencies with a minimal end-to-end proof before building substantial work around them.\n    - Record a fallback when a dependency does not naturally support the specified behaviour.\n  tasks:\n    - Include tests and end-to-end verification.\n    - Keep each change bounded enough for the configured worker model to complete reliably.\n\noperations:\n  apply:\n    guidance:\n      - Preserve correct partial work and keep validation summaries concise.\n  archive:\n    guidance:\n      - Summarize the archive outcome before finishing.\n";

/// Lines, each put in by two blanks and without blanks at its end.
pub open spec fn indented(list: Seq<Seq<char>>) -> Seq<char>
    decreases list.len(),
{
    if list.len() == 0 {
        Seq::empty()
    } else {
        indented(list.drop_last()) + "  "@ + trimmed_end(list.last()) + "\n"@
    }
}

/// The configuration of a project with a context.
pub open spec fn project_config(context: Seq<char>) -> Seq<char> {
    CONFIG_HEAD@ + indented(lines_of(trimmed(context))) + CONFIG_RULES@
}

pub fn render_project_config(context: &str) -> (r: String)
    ensures
        r@ == project_config(context@),
{
    let bare = trim(context);
    let list = lines(bare.as_str());
    let ghost all = texts(list@);
    let mut body = "".to_owned();
    let mut i: usize = 0;
    proof {
        reveal_strlit("");
        assert(all.take(0) =~= Seq::empty());
        assert(body@ =~= Seq::empty());
    }
    while i < list.len()
        invariant
            i <= list@.len(),
            all == texts(list@),
            body@ == indented(all.take(i as int)),
        decreases list@.len() - i,
    {
        proof {
            let upto = all.take(i + 1);
            assert(upto.drop_last() =~= all.take(i as int));
            assert(upto.last() == list@[i as int]@);
        }
        let line = trim_end(list[i].as_str());
        body = cat4(body.as_str(), "  ", line.as_str(), "\n");
        i += 1;
    }
    assert(all.take(i as int) =~= all);
    cat3(CONFIG_HEAD, body.as_str(), CONFIG_RULES)
}

pub const UNMATCHED: &'static str = "bootstrap context contains an unmatched `}}`";

pub const UNCLOSED: &'static str = "bootstrap context contains an unclosed `{{` placeholder";

pub const BAD_NAME: &'static str =
    "}}`; names use letters, digits, and underscores and begin with a letter or underscore";

/// A context from `pos` on with its placeholders filled in, and the names that they use; or
/// why it cannot be filled in. What is put in is not looked at again.
pub open spec fn filled(
    t: Seq<char>,
    definitions: Seq<(Seq<char>, Seq<char>)>,
    pos: int,
) -> Result<(Seq<char>, Seq<Seq<char>>), Seq<char>>
    decreases t.len() - pos,
{
    let open = find_from(t, "{{"@, pos);
    let close = find_from(t, "}}"@, pos);
    if close is Some && (open is None || close->0 < open->0) {
        Err(UNMATCHED@)
    } else {
        match open {
            None => Ok((t.subrange(pos, t.len() as int), Seq::empty())),
            Some(at) => match find_from(t, "}}"@, at + 2) {
                None => Err(UNCLOSED@),
                Some(end) => {
                    let name = trimmed(t.subrange(at + 2, end));
                    if !template_name(name) {
                        Err("invalid bootstrap context placeholder `{{"@ + name + BAD_NAME@)
                    } else {
                        match lookup(definitions, name) {
                            None => Err(
                                "bootstrap context requires `--define "@ + name + "=VALUE`"@,
                            ),
                            Some(value) => if 0 <= pos <= at && at + 2 <= end && end + 2
                                <= t.len() {
                                match filled(t, definitions, end + 2) {
                                    Err(message) => Err(message),
                                    Ok(rest) => Ok(
                                        (
                                            t.subrange(pos, at) + value + rest.0,
                                            seq![name] + rest.1,
                                        ),
                                    ),
                                }
                            } else {
                                Err(UNCLOSED@)
                            },
                        }
                    }
                },
            },
        }
    }
}

/// The names of definitions that no placeholder uses.
pub open spec fn unused(names: Seq<Seq<char>>, used: Seq<Seq<char>>) -> Seq<Seq<char>> {
    names.filter(|name: Seq<char>| !used.contains(name))
}

/// A context with its placeholders filled in. Every definition has to be used.
pub open spec fn context_of(t: Seq<char>, definitions: Seq<(Seq<char>, Seq<char>)>) -> Result<
    Seq<char>,
    Seq<char>,
> {
    match filled(t, definitions, 0) {
        Err(message) => Err(message),
        Ok(found) => {
            let rest = unused(names_of(definitions), found.1);
            if rest.len() > 0 {
                Err(
                    "bootstrap definition(s) have no matching context placeholder: "@ + joined(
                        rest,
                        ", "@,
                    ),
                )
            } else {
                Ok(found.0)
            }
        },
    }
}

/// Fills in the placeholders of a context.
pub fn render_context_template(template: &str, definitions: &Vec<(String, String)>) -> (r: Result<
    String,
    Failure,
>)
    ensures
        outcome(r) == context_of(template@, named(definitions@)),
{
    proof {
        reveal_strlit("{{");
        reveal_strlit("}}");
        reveal_strlit("");
    }
    let t = chars_of(template);
    let opening = chars_of("{{");
    let closing = chars_of("}}");
    let length: usize = t.len();
    let ghost defs = named(definitions@);
    let mut used: Vec<String> = Vec::new();
    let mut out = "".to_owned();
    let mut pos: usize = 0;
    assert(out@ =~= Seq::empty());
    assert(texts(used@) =~= Seq::empty());
    loop
        invariant_except_break
            filled(template@, defs, 0) == match filled(template@, defs, pos as int) {
                Err(message) => Err(message),
                Ok(rest) => Ok((out@ + rest.0, texts(used@) + rest.1)),
            },
        invariant
            t@ == template@,
            length == t@.len(),
            pos <= length,
            opening@ == "{{"@,
            closing@ == "}}"@,
            opening@.len() == 2,
            closing@.len() == 2,
            defs == named(definitions@),
        ensures
            filled(template@, defs, 0) == Ok::<_, Seq<char>>((out@, texts(used@))),
        decreases length - pos,
    {
        proof {
            lemma_find_from(template@, "{{"@, pos as int);
            lemma_find_from(template@, "}}"@, pos as int);
        }
        let next_open = find_chars(&t, &opening, pos);
        let next_close = find_chars(&t, &closing, pos);
        let stray = match (next_open, next_close) {
            (Some(open), Some(close)) => close < open,
            (None, Some(_)) => true,
            (_, None) => false,
        };
        if stray {
            return fail_with(UNMATCHED);
        }
        let open = match next_open {
            Some(open) => open,
            None => {
                let rest = string_of(&t, pos, length);
                out = cat2(out.as_str(), rest.as_str());
                assert(texts(used@) + Seq::<Seq<char>>::empty() =~= texts(used@));
                break ;
            },
        };
        proof {
            lemma_find_from(template@, "}}"@, open + 2);
        }
        let close = match find_chars(&t, &closing, open + 2) {
            Some(close) => close,
            None => {
                return fail_with(UNCLOSED);
            },
        };
        let inner = string_of(&t, open + 2, close);
        let name = trim(inner.as_str());
        if !valid_template_name(name.as_str()) {
            return fail(
                cat3("invalid bootstrap context placeholder `{{", name.as_str(), BAD_NAME),
            );
        }
        let index = match find_entry(definitions, name.as_str()) {
            Some(index) => index,
            None => {
                return fail(
                    cat3("bootstrap context requires `--define ", name.as_str(), "=VALUE`"),
                );
            },
        };
        let plain = string_of(&t, pos, open);
        let ghost before = out@;
        let ghost names = texts(used@);
        out = cat3(out.as_str(), plain.as_str(), definitions[index].1.as_str());
        push_text(&mut used, name.as_str());
        proof {
            match filled(template@, defs, close + 2) {
                Ok(rest) => {
                    let value = definitions@[index as int].1@;
                    assert(before + (plain@ + value + rest.0) =~= out@ + rest.0);
                    assert(names + (seq![name@] + rest.1) =~= texts(used@) + rest.1);
                },
                Err(_) => {},
            }
        }
        pos = close + 2;
    }
    let mut idle: Vec<String> = Vec::new();
    let mut i: usize = 0;
    let ghost all = names_of(defs);
    let ghost wanted = |name: Seq<char>| !texts(used@).contains(name);
    proof {
        reveal(Seq::filter);
        assert(texts(idle@) =~= all.take(0).filter(wanted));
    }
    while i < definitions.len()
        invariant
            i <= definitions@.len(),
            all == names_of(named(definitions@)),
            wanted == (|name: Seq<char>| !texts(used@).contains(name)),
            texts(idle@) == all.take(i as int).filter(wanted),
        decreases definitions@.len() - i,
    {
        proof {
            reveal(Seq::filter);
            let upto = all.take(i + 1);
            assert(upto.drop_last() =~= all.take(i as int));
            assert(upto.last() == definitions@[i as int].0@);
        }
        if !holds(&used, definitions[i].0.as_str()) {
            push_text(&mut idle, definitions[i].0.as_str());
        }
        i += 1;
    }
    assert(all.take(i as int) =~= all);
    assert(unused(all, texts(used@)) == texts(idle@));
    if idle.len() > 0 {
        let list = join(&idle, ", ");
        return fail(
            cat2(
                "bootstrap definition(s) have no matching context placeholder: ",
                list.as_str(),
            ),
        );
    }
    Ok(out)
}

/// A context without placeholders is taken as it is, where nothing is defined.
pub proof fn law_plain_context_is_unchanged(t: Seq<char>)
    requires
        free_of(t, "{{"@),
        free_of(t, "}}"@),
    ensures
        context_of(t, Seq::empty()) == Ok::<_, Seq<char>>(t),
{
    lemma_find_from(t, "{{"@, 0);
    lemma_find_from(t, "}}"@, 0);
    assert(t.subrange(0, t.len() as int) =~= t);
    reveal(Seq::filter);
    assert(names_of(Seq::<(Seq<char>, Seq<char>)>::empty()) =~= Seq::empty());
}

/// A placeholder is filled in with exactly what it is defined as, and nothing in that is
/// filled in again.
pub proof fn law_values_are_not_expanded(
    before: Seq<char>,
    name: Seq<char>,
    after: Seq<char>,
    value: Seq<char>,
)
    requires
        template_name(name),
        forall|i: int| 0 <= i < before.len() ==> #[trigger] before[i] != '{' && before[i] != '}',
        forall|i: int| 0 <= i < after.len() ==> #[trigger] after[i] != '{' && after[i] != '}',
    ensures
        context_of(before + "{{"@ + name + "}}"@ + after, seq![(name, value)]) == Ok::<
            _,
            Seq<char>,
        >(before + value + after),
{
    reveal_strlit("{{");
    reveal_strlit("}}");
    let t = before + "{{"@ + name + "}}"@ + after;
    let at = before.len() as int;
    let end = at + 2 + name.len();
    let defs = seq![(name, value)];
    assert forall|i: int| 0 <= i < t.len() implies (t[i] == '{' <==> (i == at || i == at + 1)) && (
    t[i] == '}' <==> (i == end || i == end + 1)) by {
        if at + 2 <= i < end {
            assert(t[i] == name[i - at - 2]);
        } else if i < at {
            assert(t[i] == before[i]);
        } else if i >= end + 2 {
            assert(t[i] == after[i - end - 2]);
        }
    }
    lemma_find_from(t, "{{"@, 0);
    lemma_find_from(t, "}}"@, 0);
    lemma_find_from(t, "}}"@, at + 2);
    lemma_find_from(t, "{{"@, end + 2);
    lemma_find_from(t, "}}"@, end + 2);
    assert(t.subrange(at, at + 2) =~= "{{"@);
    assert(occurs_at(t, "{{"@, at));
    assert(t.subrange(end, end + 2) =~= "}}"@);
    assert(occurs_at(t, "}}"@, end));
    assert forall|i: int| #[trigger] occurs_at(t, "{{"@, i) implies i == at by {
        assert(t.subrange(i, i + 2)[0] == t[i]);
        assert(t.subrange(i, i + 2)[1] == t[i + 1]);
    }
    assert forall|i: int| #[trigger] occurs_at(t, "}}"@, i) implies i == end by {
        assert(t.subrange(i, i + 2)[0] == t[i]);
        assert(t.subrange(i, i + 2)[1] == t[i + 1]);
    }
    assert(find_from(t, "{{"@, 0) == Some(at));
    assert(find_from(t, "}}"@, 0) == Some(end));
    assert(find_from(t, "}}"@, at + 2) == Some(end));
    assert(find_from(t, "{{"@, end + 2) is None);
    assert(find_from(t, "}}"@, end + 2) is None);
    assert(t.subrange(at + 2, end) =~= name);
    crate::text::lemma_trimmed_bare(name);
    assert(t.subrange(0, at) =~= before);
    assert(t.subrange(end + 2, t.len() as int) =~= after);
    assert(lookup(defs, name) == Some(value)) by {
        assert(defs.last() == (name, value));
    }
    let rest = filled(t, defs, end + 2);
    assert(rest == Ok::<_, Seq<char>>((after, Seq::<Seq<char>>::empty())));
    let whole = filled(t, defs, 0);
    assert(whole == Ok::<_, Seq<char>>((before + value + after, seq![name] + Seq::empty())));
    assert(seq![name] + Seq::<Seq<char>>::empty() =~= seq![name]);
    reveal(Seq::filter);
    let names = names_of(defs);
    assert(names =~= seq![name]);
    assert(names.drop_last() =~= Seq::empty());
    assert(seq![name].contains(name)) by {
        assert(seq![name][0] == name);
    }
    let wanted = |n: Seq<char>| !seq![name].contains(n);
    assert(names.filter(wanted) =~= Seq::empty());
}

/// The fragment, from the text that leaves a place for what models confuse.
pub fn managed_fragment(template: &str, confusions: &str) -> (r: String)
    ensures
        r@ == trimmed(replaced(template@, MODEL_CONFUSIONS_PLACEHOLDER@, confusions@)),
{
    proof {
        reveal_strlit("{{OPSX_BUILD_MODEL_CONFUSIONS}}");
    }
    let whole = replace(template, MODEL_CONFUSIONS_PLACEHOLDER, confusions);
    trim(whole.as_str())
}

/// A file with the fragment in it: in place of the one that it has, or at its end; or why
/// the fragment cannot be put in.
pub open spec fn merged(existing: Seq<char>, name: Seq<char>, fragment: Seq<char>) -> Result<
    Seq<char>,
    Seq<char>,
> {
    match (count(existing, MANAGED_START@), count(existing, MANAGED_END@)) {
        (Count::Never, Count::Never) => {
            let base = trimmed_end(existing);
            Ok(
                (if base.len() == 0 {
                    base
                } else {
                    base + "\n\n"@
                }) + fragment + "\n"@,
            )
        },
        (Count::Once(start), Count::Once(end)) if start < end => Ok(
            existing.take(start) + fragment + existing.skip(end + MANAGED_END@.len()),
        ),
        _ => Err(
            name
                + " has malformed or repeated opsx-build managed markers; repair them before bootstrapping"@,
        ),
    }
}

/// Puts the fragment into a file.
pub fn merge_managed_fragment(existing: &str, file_name: &str, fragment: &str) -> (r: Result<
    String,
    Failure,
>)
    ensures
        outcome(r) == merged(existing@, file_name@, fragment@),
{
    proof {
        lemma_markers();
    }
    let v = chars_of(existing);
    let start_marker = chars_of(MANAGED_START);
    let end_marker = chars_of(MANAGED_END);
    let length: usize = v.len();
    let starts_at = count_chars(&v, &start_marker);
    let ends_at = count_chars(&v, &end_marker);
    match (starts_at, ends_at) {
        (Found::Never, Found::Never) => {
            let base = trim_end(existing);
            if chars_of(base.as_str()).len() == 0 {
                Ok(cat3(base.as_str(), fragment, "\n"))
            } else {
                Ok(cat4(base.as_str(), "\n\n", fragment, "\n"))
            }
        },
        (Found::Once(start), Found::Once(end)) => {
            if start < end {
                let head = string_of(&v, 0, start);
                let tail = string_of(&v, end + end_marker.len(), length);
                assert(head@ =~= existing@.take(start as int));
                assert(tail@ =~= existing@.skip(end + MANAGED_END@.len()));
                Ok(cat3(head.as_str(), fragment, tail.as_str()))
            } else {
                malformed(file_name)
            }
        },
        _ => malformed(file_name),
    }
}

fn malformed(file_name: &str) -> (r: Result<String, Failure>)
    ensures
        failed(
            r,
            file_name@
                + " has malformed or repeated opsx-build managed markers; repair them before bootstrapping"@,
        ),
{
    fail(
        cat2(
            file_name,
            " has malformed or repeated opsx-build managed markers; repair them before bootstrapping",
        ),
    )
}

proof fn lemma_markers()
    ensures
        marker(MANAGED_START@),
        marker(MANAGED_END@),
{
    reveal_strlit("<!-- BEGIN OPSX-BUILD MANAGED -->");
    reveal_strlit("<!-- END OPSX-BUILD MANAGED -->");
}

/// Whether a text can be the fragment: it opens with the one marker and closes with the
/// other, and holds each once.
pub open spec fn well_marked(fragment: Seq<char>) -> bool {
    &&& only_at(fragment, MANAGED_START@, 0)
    &&& only_at(fragment, MANAGED_END@, fragment.len() - MANAGED_END@.len())
    &&& fragment.len() > MANAGED_END@.len()
}

/// A file that the fragment was put into holds each marker once, and putting the
/// fragment into it a second time changes nothing.
pub proof fn law_merging_again_changes_nothing(
    existing: Seq<char>,
    name: Seq<char>,
    fragment: Seq<char>,
)
    requires
        well_marked(fragment),
    ensures
        merged(existing, name, fragment) matches Ok(once) ==> {
            &&& merged(once, name, fragment) == Ok::<_, Seq<char>>(once)
            &&& count(once, MANAGED_START@) is Once
            &&& count(once, MANAGED_END@) is Once
        },
{
    lemma_markers();
    let s = MANAGED_START@;
    let e = MANAGED_END@;
    let parts = fragment_parts(existing, fragment);
    let a = parts.0;
    let b = parts.1;
    if merged(existing, name, fragment) is Ok {
        lemma_parts(existing, name, fragment);
        let once = merged(existing, name, fragment)->Ok_0;
        assert(once =~= a + fragment + b);
        assert(fragment.subrange(0, s.len() as int)[0] == fragment[0]);
        let at = fragment.len() - e.len();
        assert(fragment.subrange(at, at + e.len()).last() == fragment.last());
        lemma_middle(a, fragment, b, s, 0);
        lemma_middle(a, fragment, b, e, at);
        lemma_counted_once(once, s, a.len() as int);
        lemma_counted_once(once, e, a.len() + at);
        assert(once.take(a.len() as int) =~= a);
        assert(once.skip(a.len() + at + e.len()) =~= b);
    }
}

/// What stands before and after the fragment in a file that it was put into.
pub open spec fn fragment_parts(existing: Seq<char>, fragment: Seq<char>) -> (Seq<char>, Seq<char>) {
    match (count(existing, MANAGED_START@), count(existing, MANAGED_END@)) {
        (Count::Once(start), Count::Once(end)) => (
            existing.take(start),
            existing.skip(end + MANAGED_END@.len()),
        ),
        _ => (
            if trimmed_end(existing).len() == 0 {
                trimmed_end(existing)
            } else {
                trimmed_end(existing) + "\n\n"@
            },
            "\n"@,
        ),
    }
}

proof fn lemma_feeds_free(base: Seq<char>, feeds: Seq<char>, p: Seq<char>)
    requires
        marker(p),
        free_of(base, p),
        forall|i: int| 0 <= i < feeds.len() ==> #[trigger] feeds[i] == '\n',
    ensures
        free_of(base + feeds, p),
{
    let t = base + feeds;
    assert forall|i: int| !#[trigger] occurs_at(t, p, i) by {
        if occurs_at(t, p, i) {
            let w = t.subrange(i, i + p.len());
            if i + p.len() <= base.len() {
                assert(base.subrange(i, i + p.len()) =~= w);
                assert(occurs_at(base, p, i));
            } else {
                let k = p.len() - 1;
                assert(w[k] == t[i + k]);
                assert(t[i + k] == feeds[i + k - base.len()]);
            }
        }
    }
}

proof fn lemma_parts(existing: Seq<char>, name: Seq<char>, fragment: Seq<char>)
    requires
        merged(existing, name, fragment) is Ok,
    ensures
        ({
            let parts = fragment_parts(existing, fragment);
            &&& merged(existing, name, fragment)->Ok_0 == parts.0 + fragment + parts.1
            &&& free_of(parts.0, MANAGED_START@)
            &&& free_of(parts.0, MANAGED_END@)
            &&& free_of(parts.1, MANAGED_START@)
            &&& free_of(parts.1, MANAGED_END@)
        }),
{
    lemma_markers();
    let s = MANAGED_START@;
    let e = MANAGED_END@;
    let parts = fragment_parts(existing, fragment);
    match (count(existing, s), count(existing, e)) {
        (Count::Once(start), Count::Once(end)) => {
            lemma_once(existing, s, start);
            lemma_once(existing, e, end);
            let n = existing.len() as int;
            assert(parts.0 =~= existing.subrange(0, start));
            assert(parts.1 =~= existing.subrange(end + e.len(), n));
            lemma_part_free(existing, s, 0, start, start);
            lemma_part_free(existing, e, 0, start, end);
            lemma_part_free(existing, s, end + e.len(), n, start);
            lemma_part_free(existing, e, end + e.len(), n, end);
        },
        _ => {
            lemma_never(existing, s);
            lemma_never(existing, e);
            reveal_strlit("\n\n");
            reveal_strlit("\n");
            let base = trimmed_end(existing);
            crate::text::lemma_drop_bounds(existing, existing.len() as int);
            let m = crate::text::drop_spaces(existing, existing.len() as int);
            assert(base =~= existing.subrange(0, m));
            lemma_part_free(existing, s, 0, m, -1);
            lemma_part_free(existing, e, 0, m, -1);
            lemma_feeds_free(base, "\n\n"@, s);
            lemma_feeds_free(base, "\n\n"@, e);
            let none = Seq::<char>::empty();
            assert(free_of(none, s));
            assert(free_of(none, e));
            lemma_feeds_free(none, "\n"@, s);
            lemma_feeds_free(none, "\n"@, e);
            assert(none + "\n"@ =~= "\n"@);
        },
    }
}

/// Whether a file has a fragment: one opening marker, and one closing marker behind it.
pub open spec fn fragment_at(existing: Seq<char>, start: int, end: int) -> bool {
    only_at(existing, MANAGED_START@, start) && only_at(existing, MANAGED_END@, end) && start < end
}

/// Whether a file has neither marker.
pub open spec fn unmanaged(existing: Seq<char>) -> bool {
    free_of(existing, MANAGED_START@) && free_of(existing, MANAGED_END@)
}

/// What is outside of the fragment stays as it was. A file without markers keeps its
/// text and gets the fragment at its end. In one with a fragment, whatever that holds,
/// the text before and after it is kept. Every other file is refused.
pub proof fn law_only_the_fragment_is_replaced(
    existing: Seq<char>,
    name: Seq<char>,
    fragment: Seq<char>,
)
    ensures
        unmanaged(existing) ==> (merged(existing, name, fragment) matches Ok(m)
            && trimmed_end(existing).is_prefix_of(m) && (fragment + "\n"@).is_suffix_of(m)),
        forall|start: int, end: int| #[trigger]
            fragment_at(existing, start, end) ==> merged(existing, name, fragment) == Ok::<
                _,
                Seq<char>,
            >(existing.take(start) + fragment + existing.skip(end + MANAGED_END@.len())),
        merged(existing, name, fragment) is Err <==> !unmanaged(existing) && forall|
            start: int,
            end: int,
        | !#[trigger] fragment_at(existing, start, end),
{
    lemma_markers();
    let s = MANAGED_START@;
    let e = MANAGED_END@;
    lemma_never(existing, s);
    lemma_never(existing, e);
    if unmanaged(existing) {
        let base = trimmed_end(existing);
        let m = merged(existing, name, fragment)->Ok_0;
        let tail = fragment + "\n"@;
        assert(m.subrange(0, base.len() as int) =~= base);
        assert(m.subrange(m.len() - tail.len(), m.len() as int) =~= tail);
    }
    assert forall|start: int, end: int| #[trigger] fragment_at(existing, start, end) implies merged(
        existing,
        name,
        fragment,
    ) == Ok::<_, Seq<char>>(
        existing.take(start) + fragment + existing.skip(end + MANAGED_END@.len()),
    ) by {
        lemma_counted_once(existing, s, start);
        lemma_counted_once(existing, e, end);
    }
    if merged(existing, name, fragment) is Ok && !unmanaged(existing) {
        let start = count(existing, s)->Once_0;
        let end = count(existing, e)->Once_0;
        lemma_once(existing, s, start);
        lemma_once(existing, e, end);
        assert(fragment_at(existing, start, end));
    }
}

/// What a project is bootstrapped with.
#[derive(Debug)]
pub struct BootstrapScaffold {
    pub context_path: String,
    pub config: String,
}

/// What there is before a project is bootstrapped.
#[derive(Debug, Clone)]
pub struct ProjectFacts {
    pub config_exists: bool,
    pub instructions_exist: bool,
    pub agenda_exists: bool,
    /// What the guidance file of the default harness holds.
    pub guide: String,
    pub agents: String,
}

/// Where the context of a project is: where the user says, or in the repository.
pub fn context_source(repo: &str, context_path: Option<&str>, default_is_file: bool) -> (r: Result<
    String,
    Failure,
>)
    ensures
        match str_option(context_path) {
            Some(path) => r matches Ok(p) && p@ == path,
            None => if default_is_file {
                r matches Ok(p) && p@ == joined_path(repo@, "context.md"@)
            } else {
                failed(
                    r,
                    "no project context supplied and `"@ + joined_path(repo@, "context.md"@)
                        + "` is not a file; create it or use --context PATH"@,
                )
            },
        },
{
    if let Some(path) = context_path {
        return Ok(path.to_owned());
    }
    let default = join_path(repo, "context.md");
    if default_is_file {
        Ok(default)
    } else {
        fail(
            cat3(
                "no project context supplied and `",
                default.as_str(),
                "` is not a file; create it or use --context PATH",
            ),
        )
    }
}

/// What a project is bootstrapped with, as its configuration; or why it is not.
pub open spec fn planned(
    repo: Seq<char>,
    context_path: Seq<char>,
    template: Seq<char>,
    definitions: Seq<(Seq<char>, Seq<char>)>,
    facts: ProjectFacts,
    fragment: Seq<char>,
    h: HarnessView,
) -> Result<Seq<char>, Seq<char>> {
    if trimmed(template).len() == 0 {
        Err("bootstrap context `"@ + context_path + "` is empty"@)
    } else {
        match context_of(template, definitions) {
            Err(message) => Err(message),
            Ok(context) => if trimmed(context).len() == 0 {
                Err(
                    "bootstrap context `"@ + context_path
                        + "` is empty after template substitution"@,
                )
            } else if facts.config_exists {
                Err(
                    "OpenSpec is already initialized at `"@ + joined_path(repo, CONFIG_PATH@)
                        + "`; bootstrap is for a new planning root"@,
                )
            } else if facts.instructions_exist {
                Err(
                    "bootstrap instructions already exist at `"@ + joined_path(
                        repo,
                        BOOTSTRAP_PATH@,
                    ) + "`; preserve them and resume the existing run instead"@,
                )
            } else if facts.agenda_exists {
                Err(
                    "an implementation agenda already exists under `"@ + joined_path(
                        repo,
                        SLICES_PATH@,
                    ) + "`; bootstrap will not replace it"@,
                )
            } else {
                match merged(facts.guide@, h.guide(), fragment) {
                    Err(message) => Err(message),
                    Ok(_) => match merged(facts.agents@, AGENTS_PATH@, fragment) {
                        Err(message) => Err(message),
                        Ok(_) => Ok(project_config(context)),
                    },
                }
            },
        }
    }
}

impl BootstrapScaffold {
    /// Plans what a project is bootstrapped with, and writes nothing.
    pub fn plan(
        repo: &str,
        context_path: &str,
        template: &str,
        definitions: &Vec<(String, String)>,
        facts: &ProjectFacts,
        fragment: &str,
        harness: &Harness,
    ) -> (r: Result<BootstrapScaffold, Failure>)
        ensures
            match planned(
                repo@,
                context_path@,
                template@,
                named(definitions@),
                *facts,
                fragment@,
                harness@,
            ) {
                Ok(config) => r matches Ok(s) && s.context_path@ == context_path@ && s.config@
                    == config,
                Err(message) => failed(r, message),
            },
    {
        let bare = trim(template);
        if chars_of(bare.as_str()).len() == 0 {
            return fail(cat3("bootstrap context `", context_path, "` is empty"));
        }
        let context = match render_context_template(template, definitions) {
            Ok(context) => context,
            Err(e) => {
                return Err(e);
            },
        };
        let rest = trim(context.as_str());
        if chars_of(rest.as_str()).len() == 0 {
            return fail(
                cat3("bootstrap context `", context_path, "` is empty after template substitution"),
            );
        }
        if facts.config_exists {
            let path = join_path(repo, CONFIG_PATH);
            return fail(
                cat3(
                    "OpenSpec is already initialized at `",
                    path.as_str(),
                    "`; bootstrap is for a new planning root",
                ),
            );
        }
        if facts.instructions_exist {
            let path = join_path(repo, BOOTSTRAP_PATH);
            return fail(
                cat3(
                    "bootstrap instructions already exist at `",
                    path.as_str(),
                    "`; preserve them and resume the existing run instead",
                ),
            );
        }
        if facts.agenda_exists {
            let path = join_path(repo, SLICES_PATH);
            return fail(
                cat3(
                    "an implementation agenda already exists under `",
                    path.as_str(),
                    "`; bootstrap will not replace it",
                ),
            );
        }
        let guide = harness.guide();
        if let Err(e) = merge_managed_fragment(facts.guide.as_str(), guide.as_str(), fragment) {
            return Err(e);
        }
        if let Err(e) = merge_managed_fragment(facts.agents.as_str(), AGENTS_PATH, fragment) {
            return Err(e);
        }
        Ok(
            BootstrapScaffold {
                context_path: context_path.to_owned(),
                config: render_project_config(context.as_str()),
            },
        )
    }

    /// The files that bootstrapping puts in place.
    pub fn paths(harness: &Harness) -> (r: Vec<String>)
        ensures
            texts(r@) == seq![CONFIG_PATH@, BOOTSTRAP_PATH@, harness@.guide(), AGENTS_PATH@],
    {
        let guide = harness.guide();
        let mut list: Vec<String> = Vec::new();
        push_text(&mut list, CONFIG_PATH);
        push_text(&mut list, BOOTSTRAP_PATH);
        push_text(&mut list, guide.as_str());
        push_text(&mut list, AGENTS_PATH);
        assert(texts(list@) =~= seq![CONFIG_PATH@, BOOTSTRAP_PATH@, harness@.guide(), AGENTS_PATH@]);
        list
    }
}

/// The guidance file of the second harness with the fragment in it, where that changes it.
pub fn ensure_codex_guidance(existing: &str, fragment: &str) -> (r: Result<Option<String>, Failure>)
    ensures
        match merged(existing@, AGENTS_PATH@, fragment@) {
            Ok(new) => r matches Ok(change) && text_option(change) == if new == existing@ {
                None
            } else {
                Some(new)
            },
            Err(message) => failed(r, message),
        },
{
    match merge_managed_fragment(existing, AGENTS_PATH, fragment) {
        Ok(new) => if equal(new.as_str(), existing) {
            Ok(None)
        } else {
            Ok(Some(new))
        },
        Err(e) => Err(e),
    }
}

/// A slice that was checked: its number, its file and what it holds.
pub struct SliceSpec {
    pub ordinal: nat,
    pub name: Seq<char>,
    pub content: Seq<char>,
}

/// Whether a line is a heading, but for blanks at its end.
pub open spec fn has_heading(content: Seq<char>, heading: Seq<char>) -> bool {
    exists|i: int|
        0 <= i < lines_of(content).len() && trimmed_end(#[trigger] lines_of(content)[i]) == heading
}

/// Whether a text has a title.
pub open spec fn has_title(content: Seq<char>) -> bool {
    exists|i: int|
        0 <= i < lines_of(content).len() && starts(#[trigger] lines_of(content)[i], "# "@)
}

/// The first of the headings that a slice lacks.
pub open spec fn lacking(content: Seq<char>) -> Option<Seq<char>> {
    if !has_heading(content, "## Objective"@) {
        Some("## Objective"@)
    } else if !has_heading(content, "## Prerequisites"@) {
        Some("## Prerequisites"@)
    } else if !has_heading(content, "## Acceptance Criteria"@) {
        Some("## Acceptance Criteria"@)
    } else if !has_heading(content, "## Required Tests"@) {
        Some("## Required Tests"@)
    } else {
        None
    }
}

/// The text before the first hyphen of a file name.
pub open spec fn ordinal_text(name: Seq<char>) -> Seq<char> {
    match crate::text::cut_at(name, '-') {
        Some(parts) => parts.0,
        None => name,
    }
}

/// Where a number was used already.
pub open spec fn same_ordinal(slices: Seq<SliceSpec>, ordinal: nat) -> Option<Seq<char>>
    decreases slices.len(),
{
    if slices.len() == 0 {
        None
    } else if slices.last().ordinal == ordinal {
        Some(slices.last().name)
    } else {
        same_ordinal(slices.drop_last(), ordinal)
    }
}

/// Whether a file of the agenda is a slice: all Markdown but the index is.
pub open spec fn is_slice(name: Seq<char>) -> bool {
    name != "README.md"@ && ends(name, ".md"@)
}

/// The slices among the files of an agenda, or what is wrong with the first that is not
/// right.
pub open spec fn checked(files: Seq<AgendaFile>) -> Result<Seq<SliceSpec>, Seq<char>>
    decreases files.len(),
{
    if files.len() == 0 {
        Ok(Seq::empty())
    } else {
        match checked(files.drop_last()) {
            Err(message) => Err(message),
            Ok(slices) => {
                let name = files.last().name@;
                let content = files.last().content@;
                if !is_slice(name) {
                    Ok(slices)
                } else {
                    match slice_name(name) {
                        None => Err(
                            "agenda file `"@ + name
                                + "` is not named `<number>-<kebab-case-slug>.md`"@,
                        ),
                        Some(parsed) => if ordinal_text(name).len() != 4 {
                            Err(
                                "bootstrap agenda file `"@ + name
                                    + "` must begin with one four-digit ordinal"@,
                            )
                        } else {
                            match same_ordinal(slices, parsed.0) {
                                Some(other) => Err(
                                    "agenda files `"@ + other + "` and `"@ + name
                                        + "` use the same ordinal"@,
                                ),
                                None => if !has_title(content) {
                                    Err(
                                        "agenda slice `"@ + name
                                            + "` omitted its level-one title"@,
                                    )
                                } else {
                                    match lacking(content) {
                                        Some(heading) => Err(
                                            "agenda slice `"@ + name
                                                + "` omitted required heading `"@ + heading
                                                + "`"@,
                                        ),
                                        None => Ok(
                                            slices.push(
                                                SliceSpec { ordinal: parsed.0, name, content },
                                            ),
                                        ),
                                    }
                                },
                            }
                        },
                    }
                }
            },
        }
    }
}

/// What the last slice of the agenda holds, if it is there.
pub open spec fn final_content(slices: Seq<SliceSpec>, from: int) -> Option<Seq<char>>
    decreases slices.len() - from,
{
    if from < 0 || from >= slices.len() {
        None
    } else if slices[from].name == FINAL_SLICE@ {
        Some(slices[from].content)
    } else {
        final_content(slices, from + 1)
    }
}

/// How many slices an agenda has, or what is wrong with it.
pub open spec fn agenda_checked(directory: bool, index: bool, files: Seq<AgendaFile>) -> Result<
    nat,
    Seq<char>,
> {
    if !directory {
        Err("bootstrap did not create `"@ + SLICES_PATH@ + "`"@)
    } else if !index {
        Err("bootstrap agenda omitted `"@ + SLICES_PATH@ + "/README.md`"@)
    } else {
        match checked(files) {
            Err(message) => Err(message),
            Ok(slices) => if slices.len() < 2 {
                Err(
                    "bootstrap agenda must contain at least one delivery slice and the final acceptance slice"@,
                )
            } else {
                match final_content(slices, 0) {
                    None => Err(
                        "bootstrap agenda omitted final gate `"@ + SLICES_PATH@ + "/"@
                            + FINAL_SLICE@ + "`"@,
                    ),
                    Some(content) => if !has_heading(content, "## Project Goal Coverage"@) {
                        Err(
                            "final gate `"@ + FINAL_SLICE@
                                + "` omitted required heading `## Project Goal Coverage`"@,
                        )
                    } else {
                        Ok(slices.len())
                    },
                }
            },
        }
    }
}

fn find_heading(content: &str, heading: &str) -> (r: bool)
    ensures
        r == has_heading(content@, heading@),
{
    let list = lines(content);
    let mut i: usize = 0;
    while i < list.len()
        invariant
            i <= list@.len(),
            texts(list@) == lines_of(content@),
            forall|k: int|
                0 <= k < i ==> trimmed_end(#[trigger] lines_of(content@)[k]) != heading@,
        decreases list@.len() - i,
    {
        assert(lines_of(content@)[i as int] == list@[i as int]@);
        let bare = trim_end(list[i].as_str());
        if equal(bare.as_str(), heading) {
            return true;
        }
        i += 1;
    }
    assert(lines_of(content@).len() == list@.len());
    false
}

fn find_title(content: &str) -> (r: bool)
    ensures
        r == has_title(content@),
{
    let list = lines(content);
    let mut i: usize = 0;
    while i < list.len()
        invariant
            i <= list@.len(),
            texts(list@) == lines_of(content@),
            forall|k: int| 0 <= k < i ==> !starts(#[trigger] lines_of(content@)[k], "# "@),
        decreases list@.len() - i,
    {
        assert(lines_of(content@)[i as int] == list@[i as int]@);
        if starts_with(list[i].as_str(), "# ") {
            return true;
        }
        i += 1;
    }
    assert(lines_of(content@).len() == list@.len());
    false
}

fn missing_heading(content: &str) -> (r: Option<&'static str>)
    ensures
        str_option(r) == lacking(content@),
{
    if !find_heading(content, "## Objective") {
        Some("## Objective")
    } else if !find_heading(content, "## Prerequisites") {
        Some("## Prerequisites")
    } else if !find_heading(content, "## Acceptance Criteria") {
        Some("## Acceptance Criteria")
    } else if !find_heading(content, "## Required Tests") {
        Some("## Required Tests")
    } else {
        None
    }
}

/// The slices that were checked so far: their numbers, and where they stand among the files.
pub open spec fn slice_specs(found: Seq<(u32, usize)>, files: Seq<AgendaFile>) -> Seq<SliceSpec> {
    found.map_values(
        |p: (u32, usize)|
            SliceSpec {
                ordinal: p.0 as nat,
                name: files[p.1 as int].name@,
                content: files[p.1 as int].content@,
            },
    )
}

proof fn lemma_refused_file(files: Seq<AgendaFile>, n: int)
    requires
        0 <= n <= files.len(),
        checked(files.take(n)) is Err,
    ensures
        checked(files) == checked(files.take(n)),
    decreases files.len(),
{
    if n < files.len() {
        assert(files.drop_last().take(n) =~= files.take(n));
        lemma_refused_file(files.drop_last(), n);
    } else {
        assert(files.take(n) =~= files);
    }
}

fn find_ordinal(found: &Vec<(u32, usize)>, ordinal: u32, files: &Vec<AgendaFile>) -> (r: Option<usize>)
    requires
        forall|i: int| 0 <= i < found@.len() ==> (#[trigger] found@[i]).1 < files@.len(),
    ensures
        match r {
            Some(k) => k < files@.len() && same_ordinal(
                slice_specs(found@, files@),
                ordinal as nat,
            ) == Some(files@[k as int].name@),
            None => same_ordinal(slice_specs(found@, files@), ordinal as nat) is None,
        },
{
    let ghost all = slice_specs(found@, files@);
    let mut i: usize = found.len();
    assert(all.take(i as int) =~= all);
    while i > 0
        invariant
            i <= found@.len(),
            forall|i: int| 0 <= i < found@.len() ==> (#[trigger] found@[i]).1 < files@.len(),
            all == slice_specs(found@, files@),
            same_ordinal(all, ordinal as nat) == same_ordinal(all.take(i as int), ordinal as nat),
        decreases i,
    {
        proof {
            let upto = all.take(i as int);
            assert(upto.last() == all[i - 1]);
            assert(upto.drop_last() =~= all.take(i - 1));
        }
        if found[i - 1].0 == ordinal {
            return Some(found[i - 1].1);
        }
        i -= 1;
    }
    None
}

fn check_file(files: &Vec<AgendaFile>, i: usize, found: &Vec<(u32, usize)>) -> (r: Result<
    Option<u32>,
    Failure,
>)
    requires
        i < files@.len(),
        forall|k: int| 0 <= k < found@.len() ==> (#[trigger] found@[k]).1 < files@.len(),
        checked(files@.take(i as int)) == Ok::<_, Seq<char>>(slice_specs(found@, files@)),
    ensures
        match r {
            Ok(Some(n)) => checked(files@.take(i + 1)) == Ok::<_, Seq<char>>(
                slice_specs(found@.push((n, i)), files@),
            ),
            Ok(None) => checked(files@.take(i + 1)) == Ok::<_, Seq<char>>(
                slice_specs(found@, files@),
            ),
            Err(e) => checked(files@.take(i + 1)) == Err::<Seq<SliceSpec>, _>(e.message@),
        },
{
    proof {
        let upto = files@.take(i + 1);
        assert(upto.drop_last() =~= files@.take(i as int));
        assert(upto.last() == files@[i as int]);
    }
    let name = files[i].name.as_str();
    let content = files[i].content.as_str();
    if equal(name, "README.md") || !ends_with(name, ".md") {
        return Ok(None);
    }
    let number = match parse_slice_name(name) {
        Some(parsed) => parsed.0,
        None => {
            return fail(
                cat3(
                    "agenda file `",
                    name,
                    "` is not named `<number>-<kebab-case-slug>.md`",
                ),
            );
        },
    };
    let head = match split_once(name, '-') {
        Some(parts) => parts.0,
        None => name.to_owned(),
    };
    if head.as_str().unicode_len() != 4 {
        return fail(
            cat3("bootstrap agenda file `", name, "` must begin with one four-digit ordinal"),
        );
    }
    if let Some(other) = find_ordinal(found, number, files) {
        return fail(
            cat5(
                "agenda files `",
                files[other].name.as_str(),
                "` and `",
                name,
                "` use the same ordinal",
            ),
        );
    }
    if !find_title(content) {
        return fail(cat3("agenda slice `", name, "` omitted its level-one title"));
    }
    if let Some(heading) = missing_heading(content) {
        return fail(
            cat5("agenda slice `", name, "` omitted required heading `", heading, "`"),
        );
    }
    proof {
        let n = number;
        assert(slice_specs(found@.push((n, i)), files@) =~= slice_specs(found@, files@).push(
            SliceSpec {
                ordinal: n as nat,
                name: files@[i as int].name@,
                content: files@[i as int].content@,
            },
        ));
    }
    Ok(Some(number))
}

/// Checks the agenda that bootstrapping made. `directory` and `index` say whether its
/// directory and its index are there, and `files` are the files of it.
pub fn validate_agenda(directory: bool, index: bool, files: &Vec<AgendaFile>) -> (r: Result<
    usize,
    Failure,
>)
    ensures
        match r {
            Ok(n) => agenda_checked(directory, index, files@) == Ok::<_, Seq<char>>(n as nat),
            Err(e) => agenda_checked(directory, index, files@) == Err::<nat, _>(e.message@),
        },
{
    if !directory {
        return fail(cat3("bootstrap did not create `", SLICES_PATH, "`"));
    }
    if !index {
        return fail(cat3("bootstrap agenda omitted `", SLICES_PATH, "/README.md`"));
    }
    let mut found: Vec<(u32, usize)> = Vec::new();
    let mut i: usize = 0;
    assert(files@.take(0) =~= Seq::empty());
    assert(slice_specs(found@, files@) =~= Seq::empty());
    while i < files.len()
        invariant
            directory,
            index,
            i <= files@.len(),
            forall|k: int| 0 <= k < found@.len() ==> (#[trigger] found@[k]).1 < files@.len(),
            checked(files@.take(i as int)) == Ok::<_, Seq<char>>(slice_specs(found@, files@)),
        decreases files@.len() - i,
    {
        match check_file(files, i, &found) {
            Ok(Some(number)) => {
                found.push((number, i));
            },
            Ok(None) => {},
            Err(e) => {
                proof {
                    lemma_refused_file(files@, i + 1);
                }
                return Err(e);
            },
        }
        i += 1;
    }
    assert(files@.take(i as int) =~= files@);
    if found.len() < 2 {
        return fail_with(
            "bootstrap agenda must contain at least one delivery slice and the final acceptance slice",
        );
    }
    let ghost all = slice_specs(found@, files@);
    let mut k: usize = 0;
    while k < found.len()
        invariant
            directory,
            index,
            k <= found@.len(),
            found@.len() >= 2,
            all == slice_specs(found@, files@),
            checked(files@) == Ok::<_, Seq<char>>(all),
            forall|k: int| 0 <= k < found@.len() ==> (#[trigger] found@[k]).1 < files@.len(),
            final_content(all, 0) == final_content(all, k as int),
        decreases found@.len() - k,
    {
        let file = &files[found[k].1];
        assert(all[k as int].name == file.name@);
        if equal(file.name.as_str(), FINAL_SLICE) {
            if !find_heading(file.content.as_str(), "## Project Goal Coverage") {
                return fail(
                    cat3(
                        "final gate `",
                        FINAL_SLICE,
                        "` omitted required heading `## Project Goal Coverage`",
                    ),
                );
            }
            return Ok(found.len());
        }
        k += 1;
    }
    fail(
        cat5("bootstrap agenda omitted final gate `", SLICES_PATH, "/", FINAL_SLICE, "`"),
    )
}

/// An agenda that is accepted has distinct numbers, and the acceptance slice besides at
/// least one other.
pub proof fn law_accepted_agendas_are_numbered(files: Seq<AgendaFile>, i: int, j: int)
    requires
        checked(files) is Ok,
        0 <= i < j < checked(files)->Ok_0.len(),
    ensures
        checked(files)->Ok_0[i].ordinal != checked(files)->Ok_0[j].ordinal,
    decreases files.len(),
{
    let slices = checked(files)->Ok_0;
    if files.len() > 0 {
        let front = checked(files.drop_last())->Ok_0;
        if j < front.len() {
            law_accepted_agendas_are_numbered(files.drop_last(), i, j);
        } else {
            lemma_ordinal_absent(front, slices[j].ordinal, i);
        }
    }
}

proof fn lemma_ordinal_absent(slices: Seq<SliceSpec>, ordinal: nat, i: int)
    requires
        same_ordinal(slices, ordinal) is None,
        0 <= i < slices.len(),
    ensures
        slices[i].ordinal != ordinal,
    decreases slices.len(),
{
    if i < slices.len() - 1 {
        lemma_ordinal_absent(slices.drop_last(), ordinal, i);
    }
}

// What a context becomes

proof fn lemma_indented_front(x: Seq<char>, rest: Seq<Seq<char>>)
    ensures
        indented(seq![x] + rest) == "  "@ + trimmed_end(x) + "\n"@ + indented(rest),
    decreases rest.len(),
{
    let all = seq![x] + rest;
    if rest.len() == 0 {
        assert(all =~= seq![x]);
        assert(all.drop_last() =~= Seq::<Seq<char>>::empty());
        assert(all.last() == x);
        assert(indented(all.drop_last()) == Seq::<char>::empty());
        assert(indented(rest) == Seq::<char>::empty());
        assert(indented(all) =~= "  "@ + trimmed_end(x) + "\n"@ + indented(rest));
    } else {
        lemma_indented_front(x, rest.drop_last());
        assert(all.drop_last() =~= seq![x] + rest.drop_last());
        assert(all.last() == rest.last());
        assert(indented(all) =~= "  "@ + trimmed_end(x) + "\n"@ + indented(rest));
    }
}

/// Whether a line of a block stands for a line of the context: two blanks, and behind them
/// the line itself, but for white space at its end.
pub open spec fn stands_for(written: Seq<char>, line: Seq<char>) -> bool {
    &&& written.len() >= 2 && written[0] == ' ' && written[1] == ' '
    &&& written.skip(2).is_prefix_of(line)
    &&& blank(line.skip(written.len() - 2))
    &&& line.len() == 0 || !crate::text::space(line.last()) ==> written.skip(2) == line
}

/// A block reads back as its lines: there is one line for each, with two blanks in front,
/// its own indentation kept, and nothing but white space at its end missing.
pub proof fn law_indented_lines_are_read_back(list: Seq<Seq<char>>, i: int)
    requires
        forall|k: int| 0 <= k < list.len() ==> unbroken(#[trigger] list[k]),
    ensures
        lines_of(indented(list)).len() == list.len(),
        0 <= i < list.len() ==> stands_for(lines_of(indented(list))[i], list[i]),
    decreases list.len(),
{
    reveal_strlit("  ");
    reveal_strlit("\n");
    if list.len() == 0 {
        law_lines_end_at_line_feeds(Seq::empty(), Seq::empty());
    } else {
        let x = list[0];
        let rest = list.drop_first();
        assert(unbroken(list[0]));
        assert forall|k: int| 0 <= k < rest.len() implies unbroken(#[trigger] rest[k]) by {
            assert(rest[k] == list[k + 1]);
        }
        assert(list =~= seq![x] + rest);
        lemma_indented_front(x, rest);
        let n = crate::text::drop_spaces(x, x.len() as int);
        crate::text::lemma_drop_bounds(x, x.len() as int);
        lemma_dropped_are_spaces(x, x.len() as int);
        let kept = trimmed_end(x);
        let line = "  "@ + kept;
        assert forall|k: int| 0 <= k < line.len() implies #[trigger] line[k] != '\n' by {
            if k >= 2 {
                assert(line[k] == x[k - 2]);
            }
        }
        assert(line.last() != '\r') by {
            if kept.len() > 0 {
                assert(line.last() == x[n - 1]);
            }
        }
        law_lines_end_at_line_feeds(line, indented(rest));
        assert("\n"@ =~= seq!['\n']);
        assert(lines_of(indented(list)) == seq![line] + lines_of(indented(rest)));
        law_indented_lines_are_read_back(rest, i - 1);
        if i == 0 {
            assert(line.skip(2) =~= kept);
            assert(x.subrange(0, kept.len() as int) =~= kept);
            let tail = x.skip(line.len() - 2);
            assert forall|k: int| 0 <= k < tail.len() implies crate::text::space(
                #[trigger] tail[k],
            ) by {
                assert(tail[k] == x[n + k]);
            }
            if x.len() > 0 && !crate::text::space(x.last()) {
                assert(n == x.len());
            }
            if n == x.len() {
                assert(kept =~= x);
            }
        } else if 0 < i < list.len() {
            assert(list[i] == rest[i - 1]);
        }
    }
}

proof fn lemma_dropped_are_spaces(s: Seq<char>, end: int)
    requires
        0 <= end <= s.len(),
    ensures
        forall|k: int|
            crate::text::drop_spaces(s, end) <= k < end ==> crate::text::space(#[trigger] s[k]),
        crate::text::drop_spaces(s, end) > 0 ==> !crate::text::space(
            s[crate::text::drop_spaces(s, end) - 1],
        ),
    decreases end,
{
    if end > 0 && crate::text::space(s[end - 1]) {
        lemma_dropped_are_spaces(s, end - 1);
    }
}

proof fn lemma_lines_are_unbroken(s: Seq<char>, pos: int)
    requires
        0 <= pos,
    ensures
        forall|k: int|
            0 <= k < crate::text::lines_from(s, pos).len() ==> unbroken(
                #[trigger] crate::text::lines_from(s, pos)[k],
            ),
    decreases s.len() - pos,
{
    if pos < s.len() {
        lemma_to_line_end(s, pos);
        let end = crate::text::line_end(s, pos);
        let all = crate::text::lines_from(s, pos);
        if end < s.len() {
            lemma_lines_are_unbroken(s, end + 1);
            let rest = crate::text::lines_from(s, end + 1);
            let whole = s.subrange(pos, end);
            let first = crate::text::without_return(whole);
            assert(all == seq![first] + rest);
            assert(unbroken(first)) by {
                assert forall|i: int| 0 <= i < first.len() implies #[trigger] first[i] != '\n' by {
                    assert(first[i] == s[pos + i]);
                }
            }
            assert forall|k: int| 0 <= k < all.len() implies unbroken(#[trigger] all[k]) by {
                if k > 0 {
                    assert(all[k] == rest[k - 1]);
                }
            }
        } else {
            let last = s.subrange(pos, s.len() as int);
            assert(all == seq![last]);
            assert forall|i: int| 0 <= i < last.len() implies #[trigger] last[i] != '\n' by {
                assert(last[i] == s[pos + i]);
            }
            assert forall|k: int| 0 <= k < all.len() implies unbroken(#[trigger] all[k]) by {
                assert(all[k] == last);
            }
        }
    }
}

proof fn lemma_to_line_end(s: Seq<char>, pos: int)
    requires
        0 <= pos <= s.len(),
    ensures
        pos <= crate::text::line_end(s, pos) <= s.len(),
        forall|i: int| pos <= i < crate::text::line_end(s, pos) ==> #[trigger] s[i] != '\n',
    decreases s.len() - pos,
{
    if pos < s.len() && s[pos] != '\n' {
        lemma_to_line_end(s, pos + 1);
    }
}

/// The configuration of a project holds its context between a fixed head and fixed rules,
/// and reading the context back gives, line by line, the lines that were supplied.
pub proof fn law_the_context_is_kept(context: Seq<char>, i: int) -> (block: Seq<char>)
    ensures
        project_config(context) == CONFIG_HEAD@ + block + CONFIG_RULES@,
        lines_of(block).len() == lines_of(trimmed(context)).len(),
        0 <= i < lines_of(trimmed(context)).len() ==> stands_for(
            lines_of(block)[i],
            lines_of(trimmed(context))[i],
        ),
{
    let list = lines_of(trimmed(context));
    lemma_lines_are_unbroken(trimmed(context), 0);
    law_indented_lines_are_read_back(list, i);
    indented(list)
}

/// A project is bootstrapped only where nothing of a bootstrap is there yet, and what it
/// gets is the configuration of its filled-in context. A context that is blank is refused.
pub proof fn law_bootstraps_replace_nothing(
    repo: Seq<char>,
    context_path: Seq<char>,
    template: Seq<char>,
    definitions: Seq<(Seq<char>, Seq<char>)>,
    facts: ProjectFacts,
    fragment: Seq<char>,
    h: HarnessView,
)
    ensures
        ({
            let r = planned(repo, context_path, template, definitions, facts, fragment, h);
            &&& r is Ok ==> !facts.config_exists && !facts.instructions_exist
                && !facts.agenda_exists
            &&& r is Ok <==> (trimmed(template).len() > 0 && (context_of(
                template,
                definitions,
            ) matches Ok(c) && trimmed(c).len() > 0) && !facts.config_exists
                && !facts.instructions_exist && !facts.agenda_exists && merged(
                facts.guide@,
                h.guide(),
                fragment,
            ) is Ok && merged(facts.agents@, "AGENTS.md"@, fragment) is Ok)
            &&& r is Ok ==> r == Ok::<Seq<char>, Seq<char>>(
                project_config(context_of(template, definitions)->Ok_0),
            )
        }),
{
}

/// The planner is told of exactly the worker that there is.
pub proof fn law_the_planner_knows_its_worker()
    ensures
        capacity(true) != capacity(false),
        contains_words(capacity(true), "the worker is a frontier-capable model"@),
        contains_words(capacity(false), "assume the worker is a smaller local coding model"@),
{
    reveal_strlit(
        "Implementation worker capacity: the worker is a frontier-capable model (--frontier-worker). Size coherent, testable delivery slices for that capability rather than imposing a smaller local model's limitations. The worker still needs explicit acceptance criteria and enough durable context to implement and verify each slice independently.",
    );
    reveal_strlit(
        "Implementation worker capacity: assume the worker is a smaller local coding model, substantially less capable than the frontier planner. Size coherent, testable delivery slices that this worker can implement and verify reliably in one OpenSpec cycle. Provide focused scope, concrete implementation guidance, explicit acceptance criteria, and enough durable context to work without the planner's conversation history.",
    );
    reveal_strlit("the worker is a frontier-capable model");
    reveal_strlit("assume the worker is a smaller local coding model");
    let a = capacity(true);
    let p = "the worker is a frontier-capable model"@;
    assert(a.subrange(32int, 32int + p.len()) =~= p);
    assert(occurs_at(a, p, 32));
    let b = capacity(false);
    let q = "assume the worker is a smaller local coding model"@;
    assert(b.subrange(32int, 32int + q.len()) =~= q);
    assert(occurs_at(b, q, 32));
    assert(a[32] == 't' && b[32] == 'a');
}

/// Whether words stand in a text.
pub open spec fn contains_words(s: Seq<char>, words: Seq<char>) -> bool {
    exists|i: int| occurs_at(s, words, i)
}

// What an accepted agenda is

/// Whether a file of a bootstrapped agenda is one that it may hold as a slice: named by four
/// digits and a slug, with a title and the four sections that every slice has.
pub open spec fn sound_slice(f: AgendaFile) -> bool {
    &&& slice_name(f.name@) is Some
    &&& crate::text::cut_at(f.name@, '-') matches Some(p) && p.0.len() == 4
    &&& exists|i: int|
        0 <= i < lines_of(f.content@).len() && starts(#[trigger] lines_of(f.content@)[i], "# "@)
    &&& has_section(f.content@, "## Objective"@)
    &&& has_section(f.content@, "## Prerequisites"@)
    &&& has_section(f.content@, "## Acceptance Criteria"@)
    &&& has_section(f.content@, "## Required Tests"@)
}

/// Whether a line of a text is this heading, but for white space at its end.
pub open spec fn has_section(content: Seq<char>, heading: Seq<char>) -> bool {
    exists|i: int|
        0 <= i < lines_of(content).len() && trimmed_end(#[trigger] lines_of(content)[i]) == heading
}

/// Whether a file counts as a slice: Markdown that is not the index.
pub open spec fn counts(f: AgendaFile) -> bool {
    f.name@ != "README.md"@ && ends(f.name@, ".md"@)
}

proof fn lemma_sound(f: AgendaFile)
    requires
        slice_name(f.name@) is Some,
    ensures
        sound_slice(f) <==> ordinal_text(f.name@).len() == 4 && has_title(f.content@) && lacking(
            f.content@,
        ) is None,
{
    let k = law_slices_are_numbered_files(f.name@);
    let c = f.content@;
    assert(has_heading(c, "## Objective"@) == has_section(c, "## Objective"@));
    assert(has_heading(c, "## Prerequisites"@) == has_section(c, "## Prerequisites"@));
    assert(has_heading(c, "## Acceptance Criteria"@) == has_section(c, "## Acceptance Criteria"@));
    assert(has_heading(c, "## Required Tests"@) == has_section(c, "## Required Tests"@));
    assert(f.name@[k] == '-');
    lemma_has_hyphen(f.name@, 0, k);
}

proof fn lemma_has_hyphen(s: Seq<char>, pos: int, k: int)
    requires
        0 <= pos <= k < s.len(),
        s[k] == '-',
    ensures
        crate::text::char_at(s, '-', pos) <= k,
    decreases k - pos,
{
    if pos < k {
        lemma_has_hyphen(s, pos + 1, k);
    }
}

proof fn lemma_members(files: Seq<AgendaFile>, i: int)
    requires
        checked(files) is Ok,
    ensures
        0 <= i < files.len() && counts(files[i]) ==> sound_slice(files[i]) && exists|k: int|
            0 <= k < checked(files)->Ok_0.len() && (#[trigger] checked(files)->Ok_0[k]).name
                == files[i].name@ && checked(files)->Ok_0[k].content == files[i].content@
                && checked(files)->Ok_0[k].ordinal == slice_name(files[i].name@)->Some_0.0,
    decreases files.len(),
{
    if 0 <= i < files.len() && counts(files[i]) {
        let rest = files.drop_last();
        let old = checked(rest)->Ok_0;
        let new = checked(files)->Ok_0;
        if i < rest.len() {
            lemma_members(rest, i);
            assert(rest[i] == files[i]);
            let k = choose|k: int|
                0 <= k < old.len() && (#[trigger] old[k]).name == files[i].name@ && old[k].content
                    == files[i].content@ && old[k].ordinal == slice_name(files[i].name@)->Some_0.0;
            assert(new[k] == old[k]);
        } else {
            assert(files[i] == files.last());
            lemma_sound(files[i]);
            assert(new[new.len() - 1].name == files[i].name@);
        }
    }
}

proof fn lemma_come_from(files: Seq<AgendaFile>, k: int)
    requires
        checked(files) is Ok,
        0 <= k < checked(files)->Ok_0.len(),
    ensures
        exists|i: int|
            0 <= i < files.len() && counts(#[trigger] files[i]) && files[i].name@ == checked(
                files,
            )->Ok_0[k].name && files[i].content@ == checked(files)->Ok_0[k].content && slice_name(
                files[i].name@,
            ) is Some && slice_name(files[i].name@)->Some_0.0 == checked(files)->Ok_0[k].ordinal,
    decreases files.len(),
{
    let rest = files.drop_last();
    let old = checked(rest)->Ok_0;
    if k < old.len() {
        lemma_come_from(rest, k);
        let i = choose|i: int|
            0 <= i < rest.len() && counts(#[trigger] rest[i]) && rest[i].name@ == old[k].name
                && rest[i].content@ == old[k].content && slice_name(rest[i].name@) is Some
                && slice_name(rest[i].name@)->Some_0.0 == old[k].ordinal;
        assert(files[i] == rest[i]);
        assert(checked(files)->Ok_0[k] == old[k]);
        assert(counts(files[i]));
    } else {
        let i = files.len() - 1;
        assert(counts(files[i]));
    }
}

proof fn lemma_no_same(slices: Seq<SliceSpec>, ordinal: nat)
    requires
        forall|k: int| 0 <= k < slices.len() ==> (#[trigger] slices[k]).ordinal != ordinal,
    ensures
        same_ordinal(slices, ordinal) is None,
    decreases slices.len(),
{
    if slices.len() > 0 {
        assert(slices[slices.len() - 1].ordinal != ordinal);
        assert forall|k: int| 0 <= k < slices.drop_last().len() implies (
        #[trigger] slices.drop_last()[k]).ordinal != ordinal by {
            assert(slices[k].ordinal != ordinal);
        }
        lemma_no_same(slices.drop_last(), ordinal);
    }
}

/// The files that count are accepted exactly where each is sound and no two have one number.
pub proof fn law_sound_agendas_are_accepted(files: Seq<AgendaFile>)
    ensures
        checked(files) is Ok ==> forall|i: int|
            0 <= i < files.len() && counts(#[trigger] files[i]) ==> sound_slice(files[i]),
        (forall|i: int|
            0 <= i < files.len() && counts(#[trigger] files[i]) ==> sound_slice(files[i])) && (
        forall|i: int, j: int|
            0 <= i < j < files.len() && counts(#[trigger] files[i]) && counts(#[trigger] files[j])
                ==> slice_name(files[i].name@)->Some_0.0 != slice_name(files[j].name@)->Some_0.0)
            ==> checked(files) is Ok,
    decreases files.len(),
{
    if checked(files) is Ok {
        assert forall|i: int| 0 <= i < files.len() && counts(#[trigger] files[i]) implies sound_slice(
            files[i],
        ) by {
            lemma_members(files, i);
        }
    }
    if files.len() > 0 && (forall|i: int|
        0 <= i < files.len() && counts(#[trigger] files[i]) ==> sound_slice(files[i])) && (forall|
        i: int,
        j: int,
    |
        0 <= i < j < files.len() && counts(#[trigger] files[i]) && counts(#[trigger] files[j])
            ==> slice_name(files[i].name@)->Some_0.0 != slice_name(files[j].name@)->Some_0.0) {
        let rest = files.drop_last();
        assert forall|i: int| 0 <= i < rest.len() && counts(#[trigger] rest[i]) implies sound_slice(
            rest[i],
        ) by {
            assert(rest[i] == files[i]);
            assert(counts(files[i]));
        }
        assert forall|i: int, j: int|
            0 <= i < j < rest.len() && counts(#[trigger] rest[i]) && counts(
                #[trigger] rest[j],
            ) implies slice_name(rest[i].name@)->Some_0.0 != slice_name(rest[j].name@)->Some_0.0 by {
            assert(rest[i] == files[i] && rest[j] == files[j]);
            assert(counts(files[i]) && counts(files[j]));
        }
        law_sound_agendas_are_accepted(rest);
        let last = files.last();
        let n = files.len() - 1;
        assert(files[n] == last);
        if counts(last) {
            assert(counts(files[n]));
            lemma_sound(last);
            let slices = checked(rest)->Ok_0;
            let number = slice_name(last.name@)->Some_0.0;
            assert forall|k: int| 0 <= k < slices.len() implies (#[trigger] slices[k]).ordinal
                != number by {
                lemma_come_from(rest, k);
                let i = choose|i: int|
                    0 <= i < rest.len() && counts(#[trigger] rest[i]) && rest[i].name@
                        == slices[k].name && rest[i].content@ == slices[k].content && slice_name(
                        rest[i].name@,
                    ) is Some && slice_name(rest[i].name@)->Some_0.0 == slices[k].ordinal;
                assert(rest[i] == files[i]);
                assert(counts(files[i]) && counts(files[n]));
            }
            lemma_no_same(slices, number);
        }
    }
}

/// An agenda passes its check exactly where it has its directory and its index, its files
/// are right, there are at least two slices, and one of them is the acceptance slice, which
/// says how the goal of the project is covered. The check counts the slices.
pub proof fn law_accepted_agendas_are_whole(directory: bool, index: bool, files: Seq<AgendaFile>)
    ensures
        ({
            let r = agenda_checked(directory, index, files);
            &&& r is Ok ==> directory && index && checked(files) is Ok && r->Ok_0 == checked(
                files,
            )->Ok_0.len() && r->Ok_0 >= 2
            &&& r is Ok ==> exists|k: int|
                0 <= k < checked(files)->Ok_0.len() && (#[trigger] checked(files)->Ok_0[k]).name
                    == "9999-project-acceptance.md"@ && has_section(
                    checked(files)->Ok_0[k].content,
                    "## Project Goal Coverage"@,
                )
            &&& directory && index && checked(files) is Ok && checked(files)->Ok_0.len() >= 2 && (
            exists|k: int|
                0 <= k < checked(files)->Ok_0.len() && (#[trigger] checked(files)->Ok_0[k]).name
                    == "9999-project-acceptance.md"@) && (forall|k: int|
                0 <= k < checked(files)->Ok_0.len() && (#[trigger] checked(files)->Ok_0[k]).name
                    == "9999-project-acceptance.md"@ ==> has_section(
                    checked(files)->Ok_0[k].content,
                    "## Project Goal Coverage"@,
                )) ==> r is Ok
        }),
{
    if checked(files) is Ok {
        let slices = checked(files)->Ok_0;
        lemma_final(slices, 0);
        if final_content(slices, 0) is Some {
            let c = final_content(slices, 0)->0;
            assert(has_heading(c, "## Project Goal Coverage"@) == has_section(
                c,
                "## Project Goal Coverage"@,
            ));
        }
    }
}

proof fn lemma_final(slices: Seq<SliceSpec>, from: int)
    requires
        0 <= from,
    ensures
        match final_content(slices, from) {
            Some(c) => exists|k: int|
                from <= k < slices.len() && (#[trigger] slices[k]).name
                    == "9999-project-acceptance.md"@ && slices[k].content == c,
            None => forall|k: int|
                from <= k < slices.len() ==> (#[trigger] slices[k]).name
                    != "9999-project-acceptance.md"@,
        },
    decreases slices.len() - from,
{
    if from < slices.len() {
        if slices[from].name == FINAL_SLICE@ {
            assert(slices[from].content == final_content(slices, from)->0);
        } else {
            lemma_final(slices, from + 1);
            assert forall|k: int|
                from <= k < slices.len() && final_content(slices, from) is None implies (
            #[trigger] slices[k]).name != "9999-project-acceptance.md"@ by {
                if k > from {
                    assert(from + 1 <= k);
                }
            }
        }
    }
}

/// A placeholder that nothing is defined for is refused by its name, and so is a definition
/// that no placeholder uses. One that is defined is filled in, whatever white space stands
/// around its name.
pub proof fn law_placeholders_and_definitions_go_together(
    before: Seq<char>,
    left: Seq<char>,
    name: Seq<char>,
    right: Seq<char>,
    after: Seq<char>,
    definitions: Seq<(Seq<char>, Seq<char>)>,
    other: Seq<char>,
)
    requires
        template_name(name),
        crate::text_laws::blank(left),
        crate::text_laws::blank(right),
        forall|i: int| 0 <= i < before.len() ==> #[trigger] before[i] != '{' && before[i] != '}',
        forall|i: int| 0 <= i < after.len() ==> #[trigger] after[i] != '{' && after[i] != '}',
    ensures
        ({
            let r = context_of(
                before + "{{"@ + (left + name + right) + "}}"@ + after,
                definitions,
            );
            &&& lookup(definitions, name) is None ==> r == Err::<Seq<char>, _>(
                "bootstrap context requires `--define "@ + name + "=VALUE`"@,
            )
            &&& other != name && names_of(definitions).contains(other) ==> r is Err
            &&& r matches Ok(t) ==> t == before + lookup(definitions, name)->0 + after
            &&& lookup(definitions, name) is Some && (forall|k: int|
                0 <= k < definitions.len() ==> (#[trigger] definitions[k]).0 == name) ==> r is Ok
        }),
{
    reveal_strlit("{{");
    reveal_strlit("}}");
    let inner = left + name + right;
    let t = before + "{{"@ + inner + "}}"@ + after;
    let at = before.len() as int;
    let end = at + 2 + inner.len();
    assert forall|i: int| 0 <= i < inner.len() implies inner[i] != '{' && inner[i] != '}' by {
        crate::text_laws::law_what_is_white_space(inner[i]);
        if i < left.len() {
            assert(inner[i] == left[i]);
        } else if i < left.len() + name.len() {
            assert(inner[i] == name[i - left.len()]);
        } else {
            assert(inner[i] == right[i - left.len() - name.len()]);
        }
    }
    assert forall|i: int| 0 <= i < t.len() implies (t[i] == '{' <==> (i == at || i == at + 1)) && (
    t[i] == '}' <==> (i == end || i == end + 1)) by {
        if at + 2 <= i < end {
            assert(t[i] == inner[i - at - 2]);
        } else if i < at {
            assert(t[i] == before[i]);
        } else if i >= end + 2 {
            assert(t[i] == after[i - end - 2]);
        }
    }
    lemma_find_from(t, "{{"@, 0);
    lemma_find_from(t, "}}"@, 0);
    lemma_find_from(t, "}}"@, at + 2);
    lemma_find_from(t, "{{"@, end + 2);
    lemma_find_from(t, "}}"@, end + 2);
    assert(t.subrange(at, at + 2) =~= "{{"@);
    assert(occurs_at(t, "{{"@, at));
    assert(t.subrange(end, end + 2) =~= "}}"@);
    assert(occurs_at(t, "}}"@, end));
    assert forall|i: int| #[trigger] occurs_at(t, "{{"@, i) implies i == at by {
        assert(t.subrange(i, i + 2)[0] == t[i]);
        assert(t.subrange(i, i + 2)[1] == t[i + 1]);
    }
    assert forall|i: int| #[trigger] occurs_at(t, "}}"@, i) implies i == end by {
        assert(t.subrange(i, i + 2)[0] == t[i]);
        assert(t.subrange(i, i + 2)[1] == t[i + 1]);
    }
    assert(find_from(t, "{{"@, 0) == Some(at));
    assert(find_from(t, "}}"@, 0) == Some(end));
    assert(find_from(t, "}}"@, at + 2) == Some(end));
    assert(find_from(t, "{{"@, end + 2) is None);
    assert(find_from(t, "}}"@, end + 2) is None);
    assert(t.subrange(at + 2, end) =~= inner);
    crate::text_laws::law_what_is_white_space(name[0]);
    crate::text_laws::law_what_is_white_space(name.last());
    crate::text_laws::law_trimming_takes_off_white_space(left, name, right);
    assert(t.subrange(0, at) =~= before);
    assert(t.subrange(end + 2, t.len() as int) =~= after);
    if lookup(definitions, name) is Some {
        let value = lookup(definitions, name)->0;
        assert(filled(t, definitions, end + 2) == Ok::<_, Seq<char>>(
            (after, Seq::<Seq<char>>::empty()),
        ));
        let used = seq![name] + Seq::<Seq<char>>::empty();
        assert(filled(t, definitions, 0) == Ok::<_, Seq<char>>((before + value + after, used)));
        assert(used =~= seq![name]);
        assert(used[0] == name);
        let names = names_of(definitions);
        let wanted = |n: Seq<char>| !used.contains(n);
        crate::agenda::lemma_filter_member(names, wanted, other);
        assert(!used.contains(other) || other == name);
        let rest = names.filter(wanted);
        if other != name && names.contains(other) {
            assert(rest.contains(other));
            assert(rest.len() > 0);
        }
        if forall|k: int| 0 <= k < definitions.len() ==> (#[trigger] definitions[k]).0 == name {
            if rest.len() > 0 {
                let x = rest[0];
                assert(rest.contains(x));
                crate::agenda::lemma_filter_member(names, wanted, x);
                let k = choose|k: int| 0 <= k < names.len() && names[k] == x;
                assert(definitions[k].0 == name);
                assert(used.contains(name));
            }
        }
    }
}

} // verus!
