//! What is written into the file of a campaign is read back from it.
use crate::campaign_config::{
    arguments_in, back, block, carried, changed_since, document, end_mark, fingerprint_of, front,
    law_line_ends_do_not_count, recorded_file, use_body, use_tree, UseRecord, lemma_find_shifted,
    lemma_foreign, lemma_found, lemma_marks, lemma_place, lemma_plain, lemma_replaced_shifted,
    normalised, plain_lines, preset_note, record_body, record_tree, rendered, reserved,
    section_name, section_text, span, spliced, start_mark, text_list, with_record, with_use,
    without, Agreement, ARGUMENTS_HEAD, DEFAULTS_HEAD, FRONT_END, NOT_RUN, PRESET_WARNING,
};
use crate::json::{
    item_trees, literal, lossless, marks_kept, member, member_index, member_trees, numbers_known,
    parsed_json, pretty_json, reads_back, signed_in, text_in, text_items, tree, tree_free_of,
    unfenced, Json, JsonTree,
};
use crate::markers::{free_of, marker};
use crate::numeral::decimal;
use crate::table::well_ordered;
use crate::text::{
    before, drop_spaces, find_from, lemma_find_from, occurs_at, replaced, replaced_from,
    skip_spaces, texts, trimmed, trimmed_start,
};
use vstd::prelude::*;

verus! {

/// A text without `<` holds no marker.
proof fn lemma_no_angle(s: Seq<char>, p: Seq<char>)
    requires
        marker(p),
        forall|i: int| 0 <= i < s.len() ==> #[trigger] s[i] != '<',
    ensures
        free_of(s, p),
{
    assert forall|i: int| !#[trigger] occurs_at(s, p, i) by {
        if occurs_at(s, p, i) {
            assert(s.subrange(i, i + p.len())[0] == s[i]);
        }
    }
}

/// Two texts with a line feed between them hold a marker only where one of them does.
proof fn lemma_joined_free(a: Seq<char>, b: Seq<char>, p: Seq<char>)
    requires
        marker(p),
        free_of(a, p),
        free_of(b, p),
        a.len() == 0 || b.len() == 0 || a.last() == '\n' || b[0] == '\n',
    ensures
        free_of(a + b, p),
{
    let s = a + b;
    assert forall|i: int| !#[trigger] occurs_at(s, p, i) by {
        if occurs_at(s, p, i) {
            let w = s.subrange(i, i + p.len());
            if i + p.len() <= a.len() {
                assert(a.subrange(i, i + p.len()) =~= w);
                assert(occurs_at(a, p, i));
            } else if i >= a.len() {
                assert(b.subrange(i - a.len(), i - a.len() + p.len()) =~= w);
                assert(occurs_at(b, p, i - a.len()));
            } else {
                assert(w[a.len() - 1 - i] == s[a.len() - 1]);
                assert(w[a.len() - i] == s[a.len() as int]);
            }
        }
    }
}

/// A part of a text holds no more than the text.
proof fn lemma_part(s: Seq<char>, p: Seq<char>, from: int, to: int)
    requires
        free_of(s, p),
        0 <= from <= to <= s.len(),
    ensures
        free_of(s.subrange(from, to), p),
{
    let t = s.subrange(from, to);
    assert forall|i: int| !#[trigger] occurs_at(t, p, i) by {
        if occurs_at(t, p, i) {
            assert(s.subrange(from + i, from + i + p.len()) =~= t.subrange(i, i + p.len()));
            assert(occurs_at(s, p, from + i));
        }
    }
}

/// Trimming brings nothing into a text.
proof fn lemma_trimmed_free(s: Seq<char>, p: Seq<char>)
    requires
        free_of(s, p),
    ensures
        free_of(trimmed(s), p),
{
    crate::text::lemma_skip_bounds(s, 0);
    let t = trimmed_start(s);
    lemma_part(s, p, skip_spaces(s, 0), s.len() as int);
    lemma_drop_bounds(t, t.len() as int);
    lemma_part(t, p, 0, drop_spaces(t, t.len() as int));
}

proof fn lemma_drop_bounds(s: Seq<char>, end: int)
    requires
        0 <= end <= s.len(),
    ensures
        0 <= drop_spaces(s, end) <= end,
    decreases end,
{
    if end > 0 {
        lemma_drop_bounds(s, end - 1);
    }
}

/// Whether `p` opens or closes a section of the name `name`.
pub open spec fn mark_of(p: Seq<char>, name: Seq<char>) -> bool {
    p == start_mark(name) || p == end_mark(name)
}

/// A text that is not reserved holds no mark.
proof fn lemma_unreserved(s: Seq<char>, p: Seq<char>, name: Seq<char>)
    requires
        !reserved(s),
        mark_of(p, name),
    ensures
        free_of(s, p),
{
    let a = "<!-- opsx-build:"@;
    let b = "<!-- /opsx-build:"@;
    assert forall|i: int| !#[trigger] occurs_at(s, p, i) by {
        if occurs_at(s, p, i) {
            let w = s.subrange(i, i + p.len());
            if p == start_mark(name) {
                assert(s.subrange(i, i + a.len()) =~= w.subrange(0, a.len() as int));
                assert(p.subrange(0, a.len() as int) =~= a);
                assert(occurs_at(s, a, i));
            } else {
                assert(s.subrange(i, i + b.len()) =~= w.subrange(0, b.len() as int));
                assert(p.subrange(0, b.len() as int) =~= b);
                assert(occurs_at(s, b, i));
            }
        }
    }
}

/// What stands in the file before its settings.
pub open spec fn intro(a: Agreement) -> Seq<char> {
    "# opsx-build campaign configuration\n\n## Intent\n\n"@ + trimmed(a.intent@)
        + "\n\n## Configuration decisions\n\n"@ + trimmed(a.notes@) + preset_note(
        texts(a.arguments@),
    ) + FRONT_END@
}

proof fn lemma_intro_free(a: Agreement, p: Seq<char>, name: Seq<char>)
    requires
        section_name(name),
        mark_of(p, name),
        !reserved(a.intent@),
        !reserved(a.notes@),
    ensures
        free_of(intro(a), p),
{
    lemma_marks(name);
    lemma_unreserved(a.intent@, p, name);
    lemma_unreserved(a.notes@, p, name);
    lemma_trimmed_free(a.intent@, p);
    lemma_trimmed_free(a.notes@, p);
    let one = "# opsx-build campaign configuration\n\n## Intent\n\n"@;
    let two = "\n\n## Configuration decisions\n\n"@;
    let note = preset_note(texts(a.arguments@));
    reveal_strlit("# opsx-build campaign configuration\n\n## Intent\n\n");
    reveal_strlit("\n\n## Configuration decisions\n\n");
    lemma_no_angle(one, p);
    lemma_no_angle(two, p);
    lemma_note(a, p);
    let x = one + trimmed(a.intent@);
    lemma_joined_free(one, trimmed(a.intent@), p);
    lemma_joined_free(x, two, p);
    lemma_joined_free(x + two, trimmed(a.notes@), p);
    lemma_joined_free(x + two + trimmed(a.notes@), note, p);
    lemma_front_end(p);
    lemma_joined_free(x + two + trimmed(a.notes@) + note, FRONT_END@, p);
}

proof fn lemma_front_end(p: Seq<char>)
    requires
        marker(p),
    ensures
        free_of(FRONT_END@, p),
        FRONT_END@.len() > 0,
        FRONT_END@[0] == '\n',
{
    reveal_strlit(
        "\n\nEdit the intent and run `opsx-build configure` to reconcile it with the recorded settings.\nExplicit command-line options override the recorded settings for one invocation.\n\n",
    );
    lemma_no_angle(FRONT_END@, p);
}

proof fn lemma_note(a: Agreement, p: Seq<char>)
    requires
        marker(p),
    ensures
        free_of(preset_note(texts(a.arguments@)), p),
        preset_note(texts(a.arguments@)).len() > 0 ==> preset_note(texts(a.arguments@))[0] == '\n',
{
    let note = preset_note(texts(a.arguments@));
    reveal_strlit("");
    reveal_strlit("\n\n**Preset warning:** ");
    reveal_strlit(
        "This preset is managed externally. Changes to it may alter the model or parameters used by this campaign without changing opsx-build.md.",
    );
    let lead = "\n\n**Preset warning:** "@;
    assert forall|i: int| 0 <= i < note.len() implies #[trigger] note[i] != '<' by {
        if note.len() > 0 {
            if i < lead.len() {
                assert(note[i] == lead[i]);
            } else {
                assert(note[i] == PRESET_WARNING@[i - lead.len()]);
            }
        }
    }
    lemma_no_angle(note, p);
}

/// Line feeds in place of other line ends bring no marker into a text.
proof fn lemma_normal_free(s: Seq<char>, p: Seq<char>, pos: int)
    requires
        marker(p),
        free_of(s, p),
        0 <= pos <= s.len(),
    ensures
        free_of(replaced_from(s, "\r\n"@, "\n"@, pos), p),
    decreases s.len() - pos,
{
    reveal_strlit("\n");
    reveal_strlit("\r\n");
    lemma_find_from(s, "\r\n"@, pos);
    match find_from(s, "\r\n"@, pos) {
        None => {
            lemma_part(s, p, pos, s.len() as int);
        },
        Some(i) => {
            let head = s.subrange(pos, i);
            let rest = replaced_from(s, "\r\n"@, "\n"@, i + 2);
            lemma_part(s, p, pos, i);
            lemma_normal_free(s, p, i + 2);
            lemma_no_angle("\n"@, p);
            lemma_joined_free(head, "\n"@, p);
            lemma_joined_free(head + "\n"@, rest, p);
        },
    }
}

/// Line ends are replaced in two texts on their own, where no line end is cut in two.
proof fn lemma_normal_split(a: Seq<char>, b: Seq<char>, pos: int)
    requires
        0 <= pos <= a.len(),
        a.len() == 0 || b.len() == 0 || a.last() != '\r' || b[0] != '\n',
    ensures
        replaced_from(a + b, "\r\n"@, "\n"@, pos) == replaced_from(a, "\r\n"@, "\n"@, pos)
            + normalised(b),
    decreases a.len() - pos,
{
    reveal_strlit("\r\n");
    let p = "\r\n"@;
    let s = a + b;
    lemma_find_from(a, p, pos);
    lemma_find_from(s, p, pos);
    assert forall|j: int| 0 <= j && j + 2 <= a.len() implies #[trigger] occurs_at(s, p, j)
        == occurs_at(a, p, j) by {
        assert(s.subrange(j, j + 2) =~= a.subrange(j, j + 2));
    }
    match find_from(a, p, pos) {
        Some(i) => {
            assert(occurs_at(s, p, i));
            assert(find_from(s, p, pos) == Some(i));
            lemma_normal_split(a, b, i + 2);
            assert(s.subrange(pos, i) =~= a.subrange(pos, i));
            let x = a.subrange(pos, i) + "\n"@;
            let y = replaced_from(a, p, "\n"@, i + 2);
            assert(x + (y + normalised(b)) =~= x + y + normalised(b));
        },
        None => {
            assert forall|j: int| pos <= j < a.len() implies !#[trigger] occurs_at(s, p, j) by {
                if occurs_at(s, p, j) {
                    let w = s.subrange(j, j + 2);
                    assert(w[0] == s[j]);
                    assert(w[1] == s[j + 1]);
                    assert(j + 2 <= a.len() ==> occurs_at(a, p, j));
                }
            }
            lemma_find_shifted(a, b, p, 0);
            lemma_find_from(b, p, 0);
            lemma_find_from(s, p, a.len() as int);
            let last = a.subrange(pos, a.len() as int);
            match find_from(b, p, 0) {
                Some(j) => {
                    assert(find_from(s, p, a.len() as int) == Some(a.len() + j));
                    assert(occurs_at(s, p, a.len() + j));
                    assert(find_from(s, p, pos) == Some(a.len() + j));
                    lemma_replaced_shifted(a, b, p, "\n"@, j + 2);
                    assert(s.subrange(pos, a.len() + j) =~= last + b.subrange(0, j));
                    let y = replaced_from(b, p, "\n"@, j + 2);
                    assert(last + b.subrange(0, j) + "\n"@ + y =~= last + (b.subrange(0, j)
                        + "\n"@ + y));
                },
                None => {
                    assert(find_from(s, p, pos) is None);
                    assert(s.subrange(pos, s.len() as int) =~= last + b);
                    assert(b.subrange(0, b.len() as int) =~= b);
                },
            }
        },
    }
}

/// A section that has no other line ends stays as it is.
proof fn lemma_normal_section(a: Seq<char>, t: Seq<char>, b: Seq<char>)
    requires
        plain_lines(t),
        t.len() > 0,
        t[0] == '<',
        t.last() == '>',
    ensures
        normalised(a + t + b) == normalised(a) + t + normalised(b),
{
    lemma_normal_split(a + t, b, 0);
    lemma_normal_split(a, t, 0);
    lemma_plain(t);
}

/// The fence that opens a block is found behind a text without backticks.
proof fn lemma_opening(lead: Seq<char>, rest: Seq<char>)
    requires
        forall|i: int| 0 <= i < lead.len() ==> #[trigger] lead[i] != '`',
    ensures
        find_from(lead + "```json\n"@ + rest, "```json\n"@, 0) == Some(lead.len() as int),
{
    reveal_strlit("```json\n");
    let fence = "```json\n"@;
    let t = lead + fence + rest;
    let k = lead.len() as int;
    assert(t.subrange(k, k + 8) =~= fence);
    lemma_find_from(t, fence, 0);
    assert forall|j: int| 0 <= j < k implies !#[trigger] occurs_at(t, fence, j) by {
        if occurs_at(t, fence, j) {
            assert(t.subrange(j, j + 8)[0] == t[j]);
            assert(t[j] == lead[j]);
        }
    }
    assert(occurs_at(t, fence, k));
}

/// The fence that closes a block is found where the block ends.
proof fn lemma_closing(text: Seq<char>, rest: Seq<char>)
    requires
        unfenced(text),
    ensures
        find_from(text + "\n```"@ + rest, "\n```"@, 0) == Some(text.len() as int),
{
    reveal_strlit("\n```");
    let fence = "\n```"@;
    let t = text + fence + rest;
    let n = text.len() as int;
    assert(t.subrange(n, n + 4) =~= fence);
    lemma_find_from(t, fence, 0);
    assert forall|j: int| 0 <= j < n implies !#[trigger] occurs_at(t, fence, j) by {
        if occurs_at(t, fence, j) {
            let w = t.subrange(j, j + 4);
            assert(w[0] == t[j]);
            assert(w[1] == t[j + 1]);
            assert(t[j] == text[j]);
            if j + 1 < n {
                assert(t[j + 1] == text[j + 1]);
            } else {
                assert(t[j + 1] == fence[0]);
            }
        }
    }
    assert(occurs_at(t, fence, n));
}

/// What stands in a section before its block holds no backtick.
proof fn lemma_lead(name: Seq<char>, head: Seq<char>)
    requires
        forall|i: int| 0 <= i < name.len() ==> #[trigger] name[i] != '`',
        forall|i: int| 0 <= i < head.len() ==> #[trigger] head[i] != '`',
    ensures
        forall|i: int|
            0 <= i < (start_mark(name) + "\n"@ + head).len() ==> #[trigger] (start_mark(name)
                + "\n"@ + head)[i] != '`',
{
    reveal_strlit("\n");
    reveal_strlit("<!-- opsx-build:");
    reveal_strlit(" -->");
    let s = start_mark(name);
    let lead = s + "\n"@ + head;
    assert forall|j: int| 0 <= j < lead.len() implies #[trigger] lead[j] != '`' by {
        if j < s.len() {
            assert(lead[j] == s[j]);
            if 16 <= j < 16 + name.len() {
                assert(s[j] == name[j - 16]);
            } else if j < 16 {
                assert(s[j] == "<!-- opsx-build:"@[j]);
            } else {
                assert(s[j] == " -->"@[j - 16 - name.len()]);
            }
        } else if j == s.len() {
            assert(lead[j] == '\n');
        } else {
            assert(lead[j] == head[j - s.len() - 1]);
        }
    }
}

/// The body of a section that holds a document.
pub open spec fn fenced(head: Seq<char>, text: Seq<char>) -> Seq<char> {
    head + "```json\n"@ + text + "\n```"@
}

/// The settings block of a section is what was written into it.
proof fn lemma_block(
    contents: Seq<char>,
    a: Seq<char>,
    b: Seq<char>,
    name: Seq<char>,
    head: Seq<char>,
    text: Seq<char>,
)
    requires
        section_name(name),
        forall|i: int| 0 <= i < name.len() ==> #[trigger] name[i] != '`',
        forall|i: int| 0 <= i < head.len() ==> #[trigger] head[i] != '`',
        normalised(contents) == a + section_text(name, fenced(head, text)) + b,
        unfenced(text),
        free_of(a, start_mark(name)),
        free_of(a, end_mark(name)),
        free_of(b, start_mark(name)),
        free_of(b, end_mark(name)),
        free_of(fenced(head, text), start_mark(name)),
        free_of(fenced(head, text), end_mark(name)),
    ensures
        block(contents, name) == Ok::<_, Seq<char>>(text),
{
    let c = normalised(contents);
    let t = section_text(name, fenced(head, text));
    lemma_found(a, fenced(head, text), b, name);
    assert(c.subrange(a.len() as int, (a.len() + t.len()) as int) =~= t);
    let lead = start_mark(name) + "\n"@ + head;
    let tail = "\n"@ + end_mark(name);
    let rest = text + "\n```"@ + tail;
    lemma_lead(name, head);
    lemma_opening(lead, rest);
    assert(t =~= lead + "```json\n"@ + rest);
    let from = lead.len() + "```json\n"@.len();
    assert(t.subrange(from as int, t.len() as int) =~= rest);
    lemma_closing(text, tail);
    assert(rest.subrange(0, text.len() as int) =~= text);
}

/// A block between fences holds a marker only where its text does.
proof fn lemma_fenced_free(head: Seq<char>, text: Seq<char>, p: Seq<char>)
    requires
        marker(p),
        forall|i: int| 0 <= i < head.len() ==> #[trigger] head[i] != '<',
        free_of(text, p),
    ensures
        free_of(fenced(head, text), p),
{
    reveal_strlit("```json\n");
    reveal_strlit("\n```");
    let fence = "```json\n"@;
    let lead = head + fence;
    assert forall|i: int| 0 <= i < lead.len() implies #[trigger] lead[i] != '<' by {
        if i < head.len() {
            assert(lead[i] == head[i]);
        } else {
            assert(lead[i] == fence[i - head.len()]);
        }
    }
    lemma_no_angle(lead, p);
    assert(lead.last() == fence[7]);
    lemma_joined_free(lead, text, p);
    lemma_no_angle("\n```"@, p);
    lemma_joined_free(lead + text, "\n```"@, p);
}

/// Two texts without carriage returns have none together.
proof fn lemma_plain_joined(a: Seq<char>, b: Seq<char>)
    requires
        plain_lines(a),
        plain_lines(b),
    ensures
        plain_lines(a + b),
{
    let s = a + b;
    assert forall|i: int| 0 <= i < s.len() implies #[trigger] s[i] != '\r' by {
        if i < a.len() {
            assert(s[i] == a[i]);
            assert(a.contains(a[i]));
        } else {
            assert(s[i] == b[i - a.len()]);
            assert(b.contains(b[i - a.len()]));
        }
    }
}

/// A section without carriage returns in its name and its body has none.
proof fn lemma_plain_section(name: Seq<char>, body: Seq<char>)
    requires
        plain_lines(name),
        plain_lines(body),
    ensures
        plain_lines(section_text(name, body)),
{
    reveal_strlit("\n");
    reveal_strlit("<!-- opsx-build:");
    reveal_strlit("<!-- /opsx-build:");
    reveal_strlit(" -->");
    lemma_plain_joined("<!-- opsx-build:"@, name);
    lemma_plain_joined("<!-- opsx-build:"@ + name, " -->"@);
    lemma_plain_joined("<!-- /opsx-build:"@, name);
    lemma_plain_joined("<!-- /opsx-build:"@ + name, " -->"@);
    let s = start_mark(name);
    lemma_plain_joined(s, "\n"@);
    lemma_plain_joined(s + "\n"@, body);
    lemma_plain_joined(s + "\n"@ + body, "\n"@);
    lemma_plain_joined(s + "\n"@ + body + "\n"@, end_mark(name));
}

proof fn lemma_plain_fenced(head: Seq<char>, text: Seq<char>)
    requires
        plain_lines(head),
        unfenced(text),
    ensures
        plain_lines(fenced(head, text)),
{
    reveal_strlit("```json\n");
    reveal_strlit("\n```");
    lemma_plain_joined(head, "```json\n"@);
    lemma_plain_joined(head + "```json\n"@, text);
    lemma_plain_joined(head + "```json\n"@ + text, "\n```"@);
}

/// What stands before the document of a section.
pub open spec fn heading(head: Seq<char>) -> Seq<char> {
    head.subrange(0, head.len() - 8)
}

/// A heading that a block can follow: it has no backtick, no `<` and no carriage return.
spec fn bare(head: Seq<char>) -> bool {
    forall|i: int|
        0 <= i < head.len() ==> #[trigger] head[i] != '`' && head[i] != '<' && head[i] != '\r'
}

proof fn lemma_arguments_head()
    ensures
        bare(heading(ARGUMENTS_HEAD@)),
        ARGUMENTS_HEAD@ == heading(ARGUMENTS_HEAD@) + "```json\n"@,
{
    reveal_strlit("```json\n");
    reveal_strlit(
        "## Recorded settings\n\nValidated command-line arguments; ordinary runs use these without an agent.\n\n```json\n",
    );
    assert(ARGUMENTS_HEAD@ =~= heading(ARGUMENTS_HEAD@) + "```json\n"@);
}

proof fn lemma_defaults_head()
    ensures
        bare(heading(DEFAULTS_HEAD@)),
        DEFAULTS_HEAD@ == heading(DEFAULTS_HEAD@) + "```json\n"@,
{
    reveal_strlit("```json\n");
    reveal_strlit(
        "## Defaults shown during configuration\n\nThe recorded settings above contain the agreed outcome, including accepted defaults.\nGlobal connection environments and credentials remain external references.\n\n```json\n",
    );
    assert(DEFAULTS_HEAD@ =~= heading(DEFAULTS_HEAD@) + "```json\n"@);
}

pub open spec fn record_head() -> Seq<char> {
    "## Configuration record\n\n```json\n"@
}

proof fn lemma_record_head()
    ensures
        bare(heading(record_head())),
        record_head() == heading(record_head()) + "```json\n"@,
{
    reveal_strlit("```json\n");
    reveal_strlit("## Configuration record\n\n```json\n");
    assert(record_head() =~= heading(record_head()) + "```json\n"@);
}

/// The marks of two names are different, and what opens a section closes none.
proof fn lemma_distinct(n: Seq<char>, m: Seq<char>)
    ensures
        start_mark(n) != end_mark(m),
        n != m ==> start_mark(n) != start_mark(m) && end_mark(n) != end_mark(m),
{
    reveal_strlit("<!-- opsx-build:");
    reveal_strlit("<!-- /opsx-build:");
    reveal_strlit(" -->");
    assert(start_mark(n)[5] == 'o');
    assert(end_mark(m)[5] == '/');
    if start_mark(n) == start_mark(m) {
        assert(start_mark(n).subrange(16, start_mark(n).len() - 4) =~= n);
        assert(start_mark(m).subrange(16, start_mark(m).len() - 4) =~= m);
    }
    if end_mark(n) == end_mark(m) {
        assert(end_mark(n).subrange(17, end_mark(n).len() - 4) =~= n);
        assert(end_mark(m).subrange(17, end_mark(m).len() - 4) =~= m);
    }
}

/// A name of a section: it needs no escapes, and holds neither backticks nor line ends.
spec fn plain_name(name: Seq<char>) -> bool {
    &&& section_name(name)
    &&& literal(name)
    &&& plain_lines(name)
    &&& forall|i: int| 0 <= i < name.len() ==> #[trigger] name[i] != '`'
}

proof fn lemma_plain_names()
    ensures
        plain_name("arguments"@),
        plain_name("defaults"@),
        plain_name("configured"@),
        plain_name("last-used"@),
        "arguments"@ != "defaults"@,
        "arguments"@ != "configured"@,
        "arguments"@ != "last-used"@,
        "configured"@ != "defaults"@,
        "configured"@ != "last-used"@,
{
    reveal_strlit("arguments");
    reveal_strlit("defaults");
    reveal_strlit("configured");
    reveal_strlit("last-used");
    assert("arguments"@[0] == 'a');
    assert("defaults"@[0] == 'd');
    assert("configured"@[0] == 'c');
    assert("last-used"@[0] == 'l');
}

/// The marks of a plain name need no escapes.
proof fn lemma_literal_marks(name: Seq<char>)
    requires
        plain_name(name),
    ensures
        literal(start_mark(name)),
        literal(end_mark(name)),
{
    reveal_strlit("<!-- opsx-build:");
    reveal_strlit("<!-- /opsx-build:");
    reveal_strlit(" -->");
    let s = start_mark(name);
    let e = end_mark(name);
    assert forall|i: int| 0 <= i < s.len() implies #[trigger] s[i] != '"' && s[i] != '\\' && s[i]
        >= ' ' by {
        if i < 16 {
            assert(s[i] == "<!-- opsx-build:"@[i]);
        } else if i < 16 + name.len() {
            assert(s[i] == name[i - 16]);
        } else {
            assert(s[i] == " -->"@[i - 16 - name.len()]);
        }
    }
    assert forall|i: int| 0 <= i < e.len() implies #[trigger] e[i] != '"' && e[i] != '\\' && e[i]
        >= ' ' by {
        if i < 17 {
            assert(e[i] == "<!-- /opsx-build:"@[i]);
        } else if i < 17 + name.len() {
            assert(e[i] == name[i - 17]);
        } else {
            assert(e[i] == " -->"@[i - 17 - name.len()]);
        }
    }
}

/// Whether none of the texts that are recorded for an agreement holds `p`. Its intent and
/// its notes are not among them: these are refused where they hold marks.
pub open spec fn recorded_free_of(a: Agreement, sources: JsonTree, p: Seq<char>) -> bool {
    &&& forall|i: int| 0 <= i < a.arguments@.len() ==> free_of((#[trigger] a.arguments@[i])@, p)
    &&& forall|i: int| 0 <= i < a.defaults@.len() ==> free_of((#[trigger] a.defaults@[i])@, p)
    &&& free_of(a.at@, p)
    &&& free_of(a.version@, p)
    &&& tree_free_of(sources, p, 99)
}

/// Whether none of the recorded texts holds a mark of the section `name`.
pub open spec fn recorded_clear(a: Agreement, sources: JsonTree, name: Seq<char>) -> bool {
    recorded_free_of(a, sources, start_mark(name)) && recorded_free_of(a, sources, end_mark(name))
}

/// An array of texts.
pub open spec fn list_tree(list: Seq<Seq<char>>) -> JsonTree {
    JsonTree::Array(text_items(list))
}

proof fn lemma_hex_free(value: nat, n: nat)
    ensures
        forall|i: int|
            0 <= i < crate::numeral::hex_digits(value, n).len() ==> (
            #[trigger] crate::numeral::hex_digits(value, n)[i]) != '<',
    decreases n,
{
    if n > 0 {
        lemma_hex_free(value / 16, (n - 1) as nat);
        let upper = crate::numeral::hex_digits(value / 16, (n - 1) as nat);
        let all = crate::numeral::hex_digits(value, n);
        assert forall|i: int| 0 <= i < all.len() implies #[trigger] all[i] != '<' by {
            if i < upper.len() {
                assert(all[i] == upper[i]);
            }
        }
    }
}

/// A fingerprint holds no marker.
proof fn lemma_print_free(contents: Seq<char>, p: Seq<char>)
    requires
        marker(p),
    ensures
        fingerprint_of(contents) matches Ok(print) ==> free_of(print, p),
{
    if let Ok(print) = fingerprint_of(contents) {
        let text = crate::campaign_config::counting(contents)->Ok_0;
        let hash = crate::campaign_config::fnv(vstd::utf8::encode_utf8(text)) as nat;
        let digits = crate::numeral::hex_digits(hash, 16);
        lemma_hex_free(hash, 16);
        reveal_strlit("fnv1a64:");
        assert(print == "fnv1a64:"@ + digits);
        assert forall|i: int| 0 <= i < print.len() implies #[trigger] print[i] != '<' by {
            if i < 8 {
                assert(print[i] == "fnv1a64:"@[i]);
            } else {
                assert(print[i] == digits[i - 8]);
            }
        }
        lemma_no_angle(print, p);
    }
}

/// The keys of the record of a configuration hold no marker, and are in order.
proof fn lemma_keys(p: Seq<char>)
    requires
        marker(p),
    ensures
        free_of("configured_at"@, p),
        free_of("default_sources"@, p),
        free_of("fingerprint"@, p),
        free_of("format"@, p),
        free_of("opsx_build_version"@, p),
{
    reveal_strlit("configured_at");
    reveal_strlit("default_sources");
    reveal_strlit("fingerprint");
    reveal_strlit("format");
    reveal_strlit("opsx_build_version");
    lemma_no_angle("configured_at"@, p);
    lemma_no_angle("default_sources"@, p);
    lemma_no_angle("fingerprint"@, p);
    lemma_no_angle("format"@, p);
    lemma_no_angle("opsx_build_version"@, p);
}

/// The documents of a file hold no mark that the recorded texts do not hold.
proof fn lemma_trees_free(a: Agreement, sources: JsonTree, print: Seq<char>, p: Seq<char>)
    requires
        marker(p),
        recorded_free_of(a, sources, p),
        free_of(print, p),
    ensures
        tree_free_of(list_tree(texts(a.arguments@)), p, 100),
        tree_free_of(list_tree(texts(a.defaults@)), p, 100),
        tree_free_of(record_tree(a, sources, print), p, 100),
{
    lemma_keys(p);
    let x = text_items(texts(a.arguments@));
    assert forall|i: int| 0 <= i < x.len() implies tree_free_of(#[trigger] x[i], p, 99) by {
        assert(x[i] == JsonTree::Text(a.arguments@[i]@));
    }
    let y = text_items(texts(a.defaults@));
    assert forall|i: int| 0 <= i < y.len() implies tree_free_of(#[trigger] y[i], p, 99) by {
        assert(y[i] == JsonTree::Text(a.defaults@[i]@));
    }
    let z = record_tree(a, sources, print)->Object_0;
    assert forall|i: int| 0 <= i < z.len() implies free_of((#[trigger] z[i]).0, p)
        && tree_free_of(z[i].1, p, 99) by {
        assert(z.len() == 5);
        assert(i == 0 || i == 1 || i == 2 || i == 3 || i == 4);
    }
}

/// What is known of a document that was written.
pub open spec fn written(value: JsonTree) -> bool {
    let text = pretty_json(value);
    reads_back(text, value) && unfenced(text) && marks_kept(text, value)
}

/// What is known of the documents of a file once they were written.
pub open spec fn all_written(a: Agreement, sources: JsonTree, print: Seq<char>) -> bool {
    &&& written(list_tree(texts(a.arguments@)))
    &&& written(list_tree(texts(a.defaults@)))
    &&& written(record_tree(a, sources, print))
}

/// The body of the section that holds the settings of an agreement.
pub open spec fn arguments_body(a: Agreement) -> Seq<char> {
    fenced(heading(ARGUMENTS_HEAD@), pretty_json(list_tree(texts(a.arguments@))))
}

spec fn defaults_body(a: Agreement) -> Seq<char> {
    fenced(heading(DEFAULTS_HEAD@), pretty_json(list_tree(texts(a.defaults@))))
}

spec fn configured_body(a: Agreement, sources: JsonTree, print: Seq<char>) -> Seq<char> {
    fenced(heading(record_head()), pretty_json(record_tree(a, sources, print)))
}

/// What stands in the file behind its settings.
spec fn outro(a: Agreement, body: Seq<char>) -> Seq<char> {
    "\n\n"@ + section_text("defaults"@, defaults_body(a)) + ("\n\n"@ + section_text(
        "configured"@,
        body,
    ) + back())
}

/// The parts of a file, as they were put together.
proof fn lemma_parts(a: Agreement, sources: JsonTree, print: Seq<char>)
    ensures
        record_body(a, sources, print) == configured_body(a, sources, print),
        front(a) == intro(a) + section_text("arguments"@, arguments_body(a)) + ("\n\n"@
            + section_text("defaults"@, defaults_body(a)) + "\n\n"@),
{
    lemma_arguments_head();
    lemma_defaults_head();
    lemma_record_head();
    let x = pretty_json(list_tree(texts(a.arguments@)));
    let y = pretty_json(list_tree(texts(a.defaults@)));
    let z = pretty_json(record_tree(a, sources, print));
    assert(ARGUMENTS_HEAD@ + x + "\n```"@ =~= arguments_body(a));
    assert(DEFAULTS_HEAD@ + y + "\n```"@ =~= defaults_body(a));
    assert(record_head() + z + "\n```"@ =~= configured_body(a, sources, print));
    assert(front(a) =~= intro(a) + section_text("arguments"@, arguments_body(a)) + ("\n\n"@
        + section_text("defaults"@, defaults_body(a)) + "\n\n"@));
}

/// What stands at the end of a file holds no mark of another section.
proof fn lemma_back_free(p: Seq<char>)
    requires
        marker(p),
        p != start_mark("last-used"@),
        p != end_mark("last-used"@),
    ensures
        free_of(back(), p),
{
    lemma_plain_names();
    reveal_strlit("\n");
    reveal_strlit("\n\n");
    reveal_strlit("## Last used\n\nNot run with this configuration yet.");
    lemma_no_angle("\n\n"@, p);
    lemma_no_angle("\n"@, p);
    lemma_no_angle(NOT_RUN@, p);
    lemma_foreign("\n\n"@, NOT_RUN@, "\n"@, "last-used"@, p);
}

/// What stands behind the settings holds no mark of them.
proof fn lemma_outro_free(a: Agreement, body: Seq<char>, p: Seq<char>)
    requires
        mark_of(p, "arguments"@),
        free_of(defaults_body(a), p),
        free_of(body, p),
    ensures
        free_of(outro(a, body), p),
{
    lemma_plain_names();
    lemma_marks("arguments"@);
    lemma_distinct("arguments"@, "defaults"@);
    lemma_distinct("defaults"@, "arguments"@);
    lemma_distinct("arguments"@, "configured"@);
    lemma_distinct("configured"@, "arguments"@);
    lemma_distinct("arguments"@, "last-used"@);
    lemma_distinct("last-used"@, "arguments"@);
    reveal_strlit("\n\n");
    lemma_no_angle("\n\n"@, p);
    lemma_back_free(p);
    lemma_foreign("\n\n"@, body, back(), "configured"@, p);
    lemma_foreign(
        "\n\n"@,
        defaults_body(a),
        "\n\n"@ + section_text("configured"@, body) + back(),
        "defaults"@,
        p,
    );
}

/// The settings of a file are the document that was written into it.
proof fn lemma_settings_block(a: Agreement, sources: JsonTree, print: Seq<char>)
    requires
        !reserved(a.intent@),
        !reserved(a.notes@),
        fingerprint_of(with_record(a, ""@)) == Ok::<_, Seq<char>>(print),
        all_written(a, sources, print),
        recorded_clear(a, sources, "arguments"@),
    ensures
        block(with_record(a, record_body(a, sources, print)), "arguments"@) == Ok::<_, Seq<char>>(
            pretty_json(list_tree(texts(a.arguments@))),
        ),
{
    let name = "arguments"@;
    let s = start_mark(name);
    let e = end_mark(name);
    let body = configured_body(a, sources, print);
    lemma_plain_names();
    lemma_marks(name);
    lemma_literal_marks(name);
    lemma_parts(a, sources, print);
    lemma_bodies_free(a, sources, print, s);
    lemma_bodies_free(a, sources, print, e);
    lemma_intro_free(a, s, name);
    lemma_intro_free(a, e, name);
    lemma_outro_free(a, body, s);
    lemma_outro_free(a, body, e);
    let t = section_text(name, arguments_body(a));
    let file = with_record(a, body);
    assert(file =~= intro(a) + t + outro(a, body));
    lemma_arguments_head();
    lemma_plain_heading(heading(ARGUMENTS_HEAD@));
    lemma_plain_fenced(heading(ARGUMENTS_HEAD@), pretty_json(list_tree(texts(a.arguments@))));
    lemma_plain_section(name, arguments_body(a));
    lemma_section_ends(name, arguments_body(a));
    lemma_normal_section(intro(a), t, outro(a, body));
    lemma_normal_free(intro(a), s, 0);
    lemma_normal_free(intro(a), e, 0);
    lemma_normal_free(outro(a, body), s, 0);
    lemma_normal_free(outro(a, body), e, 0);
    lemma_block(
        file,
        normalised(intro(a)),
        normalised(outro(a, body)),
        name,
        heading(ARGUMENTS_HEAD@),
        pretty_json(list_tree(texts(a.arguments@))),
    );
}

proof fn lemma_plain_heading(head: Seq<char>)
    requires
        bare(head),
    ensures
        plain_lines(head),
{
    assert forall|i: int| 0 <= i < head.len() implies #[trigger] head[i] != '\r' by {}
}

proof fn lemma_section_ends(name: Seq<char>, body: Seq<char>)
    requires
        section_name(name),
    ensures
        section_text(name, body).len() > 0,
        section_text(name, body)[0] == '<',
        section_text(name, body).last() == '>',
{
    lemma_marks(name);
    let t = section_text(name, body);
    assert(t[0] == start_mark(name)[0]);
    assert(t.last() == end_mark(name).last());
}

/// The bodies of the sections hold no mark that the recorded texts do not hold.
proof fn lemma_bodies_free(a: Agreement, sources: JsonTree, print: Seq<char>, p: Seq<char>)
    requires
        marker(p),
        literal(p),
        fingerprint_of(with_record(a, ""@)) == Ok::<_, Seq<char>>(print),
        all_written(a, sources, print),
        recorded_free_of(a, sources, p),
    ensures
        free_of(arguments_body(a), p),
        free_of(defaults_body(a), p),
        free_of(configured_body(a, sources, print), p),
{
    lemma_print_free(with_record(a, ""@), p);
    lemma_trees_free(a, sources, print, p);
    lemma_arguments_head();
    lemma_defaults_head();
    lemma_record_head();
    let x = pretty_json(list_tree(texts(a.arguments@)));
    let y = pretty_json(list_tree(texts(a.defaults@)));
    let z = pretty_json(record_tree(a, sources, print));
    assert(free_of(x, p));
    assert(free_of(y, p));
    assert(free_of(z, p));
    lemma_fenced_free(heading(ARGUMENTS_HEAD@), x, p);
    lemma_fenced_free(heading(DEFAULTS_HEAD@), y, p);
    lemma_fenced_free(heading(record_head()), z, p);
}

/// The record of a file is the document that was written into it, and the fingerprint of the
/// file is the one that the record holds.
proof fn lemma_record_block(a: Agreement, sources: JsonTree, print: Seq<char>)
    requires
        span(with_record(a, ""@), "configured"@) is Ok,
        fingerprint_of(with_record(a, ""@)) == Ok::<_, Seq<char>>(print),
        all_written(a, sources, print),
        recorded_clear(a, sources, "configured"@),
    ensures
        block(with_record(a, record_body(a, sources, print)), "configured"@) == Ok::<_, Seq<char>>(
            pretty_json(record_tree(a, sources, print)),
        ),
        fingerprint_of(with_record(a, record_body(a, sources, print))) == Ok::<_, Seq<char>>(
            print,
        ),
{
    let name = "configured"@;
    let s = start_mark(name);
    let e = end_mark(name);
    let body = configured_body(a, sources, print);
    lemma_plain_names();
    lemma_marks(name);
    lemma_literal_marks(name);
    lemma_parts(a, sources, print);
    lemma_bodies_free(a, sources, print, s);
    lemma_bodies_free(a, sources, print, e);
    lemma_record_head();
    lemma_plain_heading(heading(record_head()));
    lemma_plain_fenced(heading(record_head()), pretty_json(record_tree(a, sources, print)));
    law_fresh_file_keeps_its_fingerprint(a, body);
    lemma_place(front(a), ""@, back(), name);
    lemma_plain_section(name, body);
    lemma_section_ends(name, body);
    lemma_normal_section(front(a), section_text(name, body), back());
    lemma_normal_free(front(a), s, 0);
    lemma_normal_free(front(a), e, 0);
    lemma_normal_free(back(), s, 0);
    lemma_normal_free(back(), e, 0);
    lemma_block(
        with_record(a, body),
        normalised(front(a)),
        normalised(back()),
        name,
        heading(record_head()),
        pretty_json(record_tree(a, sources, print)),
    );
}

/// Whatever stands in the record of a file, without marks and carriage returns of its own,
/// leaves the fingerprint of the file as it is.
pub proof fn law_fresh_file_keeps_its_fingerprint(a: Agreement, body: Seq<char>)
    requires
        span(with_record(a, ""@), "configured"@) is Ok,
        plain_lines(body),
        free_of(body, start_mark("configured"@)),
        free_of(body, end_mark("configured"@)),
    ensures
        fingerprint_of(with_record(a, body)) == fingerprint_of(with_record(a, ""@)),
{
    reveal_strlit("");
    let name = "configured"@;
    let s = start_mark(name);
    let e = end_mark(name);
    lemma_plain_names();
    lemma_marks(name);
    lemma_place(front(a), ""@, back(), name);
    let x = normalised(front(a));
    let y = normalised(back());
    lemma_normal_free(front(a), s, 0);
    lemma_normal_free(front(a), e, 0);
    lemma_normal_free(back(), s, 0);
    lemma_normal_free(back(), e, 0);
    lemma_plain_section(name, body);
    lemma_section_ends(name, body);
    lemma_normal_section(front(a), section_text(name, body), back());
    lemma_plain_section(name, ""@);
    lemma_section_ends(name, ""@);
    lemma_normal_section(front(a), section_text(name, ""@), back());
    assert(free_of(""@, s));
    assert(free_of(""@, e));
    lemma_found(x, body, y, name);
    lemma_found(x, ""@, y, name);
    lemma_cut_out(x, section_text(name, body), y);
    lemma_cut_out(x, section_text(name, ""@), y);
}

proof fn lemma_cut_out(a: Seq<char>, t: Seq<char>, b: Seq<char>)
    ensures
        spliced(a + t + b, (a.len() as int, (a.len() + t.len()) as int), ""@) == a + b,
{
    reveal_strlit("");
    let s = a + t + b;
    assert(s.subrange(0, a.len() as int) =~= a);
    assert(s.subrange((a.len() + t.len()) as int, s.len() as int) =~= b);
    assert(a + ""@ + b =~= a + b);
}

/// An array whose elements are texts, by view, is a list of them.
proof fn lemma_text_list(items: Seq<Json>, list: Seq<Seq<char>>)
    requires
        item_trees(items) == text_items(list),
    ensures
        text_list(items) == Some(list),
    decreases items.len(),
{
    let all = text_items(list);
    if items.len() == 0 {
        assert(all.len() == list.len());
        assert(list =~= Seq::empty());
    } else {
        let upper = item_trees(items.drop_last());
        assert(upper.push(tree(items.last())) == all);
        assert(all.last() == tree(items.last()));
        assert(all.len() == list.len());
        assert(all.last() == JsonTree::Text(list.last()));
        assert(upper =~= all.drop_last());
        assert(all.drop_last() =~= text_items(list.drop_last()));
        lemma_text_list(items.drop_last(), list.drop_last());
        assert(list.drop_last().push(list.last()) =~= list);
    }
}

/// The members of an object, by view, one by one.
proof fn lemma_member_trees(members: Seq<(String, Json)>)
    ensures
        member_trees(members).len() == members.len(),
        forall|i: int|
            0 <= i < members.len() ==> #[trigger] member_trees(members)[i] == (
                members[i].0@,
                tree(members[i].1),
            ),
    decreases members.len(),
{
    if members.len() > 0 {
        lemma_member_trees(members.drop_last());
    }
}

/// The keys of the record of a configuration are in order.
proof fn lemma_key_order(a: Agreement, sources: JsonTree, print: Seq<char>)
    ensures
        well_ordered(record_tree(a, sources, print)->Object_0),
{
    reveal_strlit("configured_at");
    reveal_strlit("default_sources");
    reveal_strlit("fingerprint");
    reveal_strlit("format");
    reveal_strlit("opsx_build_version");
    reveal_with_fuel(before, 3);
    let z = record_tree(a, sources, print)->Object_0;
    assert forall|i: int, j: int| 0 <= i < j < z.len() implies before(
        (#[trigger] z[i]).0,
        (#[trigger] z[j]).0,
    ) by {
        assert(z[0].0[0] == 'c');
        assert(z[1].0[0] == 'd');
        assert(z[2].0[0] == 'f' && z[2].0[1] == 'i');
        assert(z[3].0[0] == 'f' && z[3].0[1] == 'o');
        assert(z[4].0[0] == 'o');
        assert(z[2].0.drop_first()[0] == 'i');
        assert(z[3].0.drop_first()[0] == 'o');
        assert(i == 0 || i == 1 || i == 2 || i == 3);
        assert(j == 1 || j == 2 || j == 3 || j == 4);
    }
}

proof fn lemma_record_lossless(a: Agreement, sources: JsonTree, print: Seq<char>)
    requires
        lossless(sources, 99),
    ensures
        lossless(record_tree(a, sources, print), 100),
        lossless(list_tree(texts(a.arguments@)), 100),
{
    lemma_key_order(a, sources, print);
    let z = record_tree(a, sources, print)->Object_0;
    reveal_strlit("1");
    assert(decimal(1u64 as nat) =~= "1"@);
    assert forall|i: int| 0 <= i < z.len() implies lossless((#[trigger] z[i]).1, 99) by {
        assert(i == 0 || i == 1 || i == 2 || i == 3 || i == 4);
    }
    let x = text_items(texts(a.arguments@));
    assert forall|i: int| 0 <= i < x.len() implies lossless(#[trigger] x[i], 99) by {
        assert(x[i] == JsonTree::Text(texts(a.arguments@)[i]));
    }
}

/// The record of a configuration gives its fingerprint and its format.
proof fn lemma_record_members(a: Agreement, sources: JsonTree, print: Seq<char>, read: Json)
    requires
        read@ == record_tree(a, sources, print),
        numbers_known(read),
    ensures
        text_in(member(read, "fingerprint"@)) == Some(print),
        signed_in(member(read, "format"@)) == Some(1i64),
{
    reveal_strlit("configured_at");
    reveal_strlit("default_sources");
    reveal_strlit("fingerprint");
    reveal_strlit("format");
    reveal_strlit("1");
    let z = record_tree(a, sources, print)->Object_0;
    let members = read->Object_0@;
    lemma_member_trees(members);
    assert(member_trees(members) == z);
    assert(members.len() == 5);
    assert(member_trees(members)[0] == z[0]);
    assert(member_trees(members)[1] == z[1]);
    assert(member_trees(members)[2] == z[2]);
    assert(member_trees(members)[3] == z[3]);
    assert(members[0].0@ == "configured_at"@);
    assert(members[1].0@ == "default_sources"@);
    assert(members[2].0@ == "fingerprint"@);
    assert(members[3].0@ == "format"@);
    reveal_with_fuel(member_index, 5);
    assert("configured_at"@[0] == 'c' && "default_sources"@[0] == 'd');
    assert("fingerprint"@[1] == 'i' && "format"@[1] == 'o');
    assert("fingerprint"@[0] == 'f' && "format"@[0] == 'f');
    assert(member_index(members, "fingerprint"@, 0) == Some(2int));
    assert(member_index(members, "format"@, 0) == Some(3int));
    assert(decimal(1u64 as nat) =~= "1"@);
    assert(tree(members[3].1) == JsonTree::Number("1"@));
}

/// Whether the file of an agreement can be read as it was written: what is recorded holds
/// no marks of the settings and of the record, and the sources of the defaults are read as
/// they are written.
pub open spec fn readable(a: Agreement, sources: JsonTree) -> bool {
    &&& lossless(sources, 99)
    &&& recorded_clear(a, sources, "arguments"@)
    &&& recorded_clear(a, sources, "configured"@)
}

/// Whether a file gives back the arguments of an agreement, and counts as unchanged.
pub open spec fn kept(a: Agreement, contents: Seq<char>) -> bool {
    &&& arguments_in(document(contents, "configured"@), document(contents, "arguments"@)) == Ok::<
        _,
        Seq<char>,
    >(texts(a.arguments@))
    &&& !changed_since(document(contents, "configured"@), fingerprint_of(contents))
}

/// The file of an agreement, with its record and that of the last run.
pub open spec fn whole_file(a: Agreement, body: Seq<char>, used: Seq<char>) -> Seq<char> {
    recorded_file(front(a), body, "\n\n"@, used, "\n"@)
}

/// Whether a file is made of the parts of an agreement's file, with line feeds alone in its
/// settings and its two records.
pub open spec fn sound(a: Agreement, contents: Seq<char>) -> bool {
    exists|body: Seq<char>, used: Seq<char>|
        contents == #[trigger] whole_file(a, body, used) && plain_lines(body) && plain_lines(used)
            && plain_lines(arguments_body(a))
}

/// Whether a run can be recorded with a body: it holds no marks and line feeds alone.
pub open spec fn recordable(body: Seq<char>) -> bool {
    &&& plain_lines(body)
    &&& clear_of(body, "arguments"@)
    &&& clear_of(body, "configured"@)
    &&& clear_of(body, "last-used"@)
}

/// Whether no text of a document holds a mark of the section `name`.
pub open spec fn tree_clear_of(value: JsonTree, name: Seq<char>) -> bool {
    tree_free_of(value, start_mark(name), 100) && tree_free_of(value, end_mark(name), 100)
}

/// Whether the texts of a record of a run hold no marks.
pub open spec fn unmarked(record: UseRecord) -> bool {
    &&& tree_clear_of(use_tree(record), "arguments"@)
    &&& tree_clear_of(use_tree(record), "configured"@)
    &&& tree_clear_of(use_tree(record), "last-used"@)
}

proof fn lemma_sound(a: Agreement, sources: JsonTree, print: Seq<char>)
    requires
        all_written(a, sources, print),
    ensures
        sound(a, with_record(a, record_body(a, sources, print))),
{
    let body = record_body(a, sources, print);
    lemma_parts(a, sources, print);
    lemma_arguments_head();
    lemma_record_head();
    lemma_plain_heading(heading(ARGUMENTS_HEAD@));
    lemma_plain_heading(heading(record_head()));
    lemma_plain_fenced(heading(ARGUMENTS_HEAD@), pretty_json(list_tree(texts(a.arguments@))));
    lemma_plain_fenced(heading(record_head()), pretty_json(record_tree(a, sources, print)));
    reveal_strlit("## Last used\n\nNot run with this configuration yet.");
    assert(with_record(a, body) == whole_file(a, body, NOT_RUN@));
}

/// A file whose documents were written gives back what was agreed on.
pub proof fn lemma_kept(a: Agreement, sources: JsonTree, print: Seq<char>)
    requires
        rendered(a, sources) is Ok,
        fingerprint_of(with_record(a, ""@)) == Ok::<_, Seq<char>>(print),
        all_written(a, sources, print),
        readable(a, sources),
    ensures
        kept(a, with_record(a, record_body(a, sources, print))),
        sound(a, with_record(a, record_body(a, sources, print))),
{
    lemma_sound(a, sources, print);
    lemma_record_lossless(a, sources, print);
    lemma_settings_block(a, sources, print);
    lemma_record_block(a, sources, print);
    let settings = parsed_json(pretty_json(list_tree(texts(a.arguments@))))->Some_0;
    let record = parsed_json(pretty_json(record_tree(a, sources, print)))->Some_0;
    lemma_text_list(settings->Array_0@, texts(a.arguments@));
    lemma_record_members(a, sources, print, record);
}

/// A file with settings and a record of the last run.
pub open spec fn used_file(
    x: Seq<char>,
    settings: Seq<char>,
    y: Seq<char>,
    used: Seq<char>,
    z: Seq<char>,
) -> Seq<char> {
    x + section_text("arguments"@, settings) + (y + section_text("last-used"@, used) + z)
}

/// Whether a text holds no mark of the section `name`.
pub open spec fn clear_of(s: Seq<char>, name: Seq<char>) -> bool {
    free_of(s, start_mark(name)) && free_of(s, end_mark(name))
}

/// The block of a section is the same wherever the section stands alone.
proof fn lemma_block_alone(c: Seq<char>, x: Seq<char>, body: Seq<char>, y: Seq<char>, name: Seq<char>)
    requires
        section_name(name),
        plain_lines(section_text(name, body)),
        normalised(c) == x + section_text(name, body) + y,
        clear_of(x, name),
        clear_of(body, name),
        clear_of(y, name),
    ensures
        block(c, name) == block(section_text(name, body), name),
{
    let none = Seq::<char>::empty();
    let t = section_text(name, body);
    lemma_marks(name);
    lemma_plain(t);
    lemma_found(x, body, y, name);
    lemma_no_angle(none, start_mark(name));
    lemma_no_angle(none, end_mark(name));
    lemma_found(none, body, none, name);
    assert(none + t + none =~= t);
    assert((x + t + y).subrange(x.len() as int, (x.len() + t.len()) as int) =~= t);
    assert(t.subrange(0, t.len() as int) =~= t);
}

/// The settings of a file with a record are those in its settings section.
proof fn lemma_settings_of(
    x: Seq<char>,
    settings: Seq<char>,
    y: Seq<char>,
    used: Seq<char>,
    z: Seq<char>,
)
    requires
        plain_lines(settings),
        clear_of(x, "arguments"@),
        clear_of(settings, "arguments"@),
        clear_of(y, "arguments"@),
        clear_of(used, "arguments"@),
        clear_of(z, "arguments"@),
    ensures
        block(used_file(x, settings, y, used, z), "arguments"@) == block(
            section_text("arguments"@, settings),
            "arguments"@,
        ),
{
    let name = "arguments"@;
    let rest = y + section_text("last-used"@, used) + z;
    lemma_plain_names();
    lemma_marks(name);
    lemma_distinct(name, "last-used"@);
    lemma_distinct("last-used"@, name);
    lemma_foreign(y, used, z, "last-used"@, start_mark(name));
    lemma_foreign(y, used, z, "last-used"@, end_mark(name));
    lemma_plain_section(name, settings);
    lemma_section_ends(name, settings);
    lemma_normal_section(x, section_text(name, settings), rest);
    lemma_normal_clear(x, name);
    lemma_normal_clear(rest, name);
    lemma_block_alone(
        used_file(x, settings, y, used, z),
        normalised(x),
        settings,
        normalised(rest),
        name,
    );
}

proof fn lemma_normal_clear(s: Seq<char>, name: Seq<char>)
    requires
        section_name(name),
        clear_of(s, name),
    ensures
        clear_of(normalised(s), name),
{
    lemma_marks(name);
    lemma_normal_free(s, start_mark(name), 0);
    lemma_normal_free(s, end_mark(name), 0);
}

/// Recording a run leaves the settings of a file as they are.
pub proof fn law_recording_keeps_the_settings(
    x: Seq<char>,
    settings: Seq<char>,
    y: Seq<char>,
    used: Seq<char>,
    z: Seq<char>,
    new: Seq<char>,
)
    requires
        plain_lines(settings),
        clear_of(x, "arguments"@) && clear_of(x, "last-used"@),
        clear_of(settings, "arguments"@) && clear_of(settings, "last-used"@),
        clear_of(y, "arguments"@) && clear_of(y, "last-used"@),
        clear_of(used, "arguments"@) && clear_of(used, "last-used"@),
        clear_of(z, "arguments"@) && clear_of(z, "last-used"@),
        clear_of(new, "arguments"@),
    ensures
        with_use(used_file(x, settings, y, used, z), new) == Ok::<_, Seq<char>>(
            used_file(x, settings, y, new, z),
        ),
        block(used_file(x, settings, y, new, z), "arguments"@) == block(
            used_file(x, settings, y, used, z),
            "arguments"@,
        ),
{
    let one = "arguments"@;
    let two = "last-used"@;
    lemma_settings_of(x, settings, y, used, z);
    lemma_settings_of(x, settings, y, new, z);
    lemma_plain_names();
    lemma_marks(two);
    lemma_distinct(one, two);
    lemma_distinct(two, one);
    lemma_foreign(x, settings, y, one, start_mark(two));
    lemma_foreign(x, settings, y, one, end_mark(two));
    let head = x + section_text(one, settings) + y;
    let file = used_file(x, settings, y, used, z);
    assert(file =~= head + section_text(two, used) + z);
    lemma_found(head, used, z, two);
    let k = head.len() + section_text(two, used).len();
    assert(file.subrange(0, head.len() as int) =~= head);
    assert(file.subrange(k as int, file.len() as int) =~= z);
    assert(used_file(x, settings, y, new, z) =~= head + section_text(two, new) + z);
}

/// What stands in a file behind the record of its configuration.
spec fn tail(used: Seq<char>) -> Seq<char> {
    "\n\n"@ + section_text("last-used"@, used) + "\n"@
}

/// What follows the configuration record is as plain as the record of the run.
proof fn lemma_tail(used: Seq<char>)
    requires
        plain_lines(used),
    ensures
        plain_lines(tail(used)),
        normalised(tail(used)) == tail(used),
{
    reveal_strlit("\n");
    reveal_strlit("\n\n");
    lemma_plain_names();
    lemma_plain_section("last-used"@, used);
    lemma_plain_joined("\n\n"@, section_text("last-used"@, used));
    lemma_plain_joined("\n\n"@ + section_text("last-used"@, used), "\n"@);
    lemma_plain(tail(used));
}

/// A record of a run that holds no mark of `p` adds none.
proof fn lemma_tail_free(used: Seq<char>, p: Seq<char>)
    requires
        marker(p),
        p != start_mark("last-used"@),
        p != end_mark("last-used"@),
        free_of(used, p),
    ensures
        free_of(tail(used), p),
{
    reveal_strlit("\n");
    reveal_strlit("\n\n");
    lemma_plain_names();
    lemma_no_angle("\n\n"@, p);
    lemma_no_angle("\n"@, p);
    lemma_foreign("\n\n"@, used, "\n"@, "last-used"@, p);
}

/// The lines of a file, part by part.
proof fn lemma_normal_file(a: Agreement, body: Seq<char>, used: Seq<char>)
    requires
        plain_lines(body),
        plain_lines(used),
    ensures
        normalised(whole_file(a, body, used)) == normalised(front(a)) + section_text(
            "configured"@,
            body,
        ) + tail(used),
{
    lemma_plain_names();
    lemma_plain_section("configured"@, body);
    lemma_section_ends("configured"@, body);
    lemma_normal_section(front(a), section_text("configured"@, body), tail(used));
    lemma_tail(used);
}

/// Another record of the last run takes the place of the one that there is.
proof fn lemma_use_replaced(a: Agreement, body: Seq<char>, old_use: Seq<char>, new: Seq<char>)
    requires
        with_use(whole_file(a, body, old_use), new) is Ok,
    ensures
        with_use(whole_file(a, body, old_use), new) == Ok::<_, Seq<char>>(whole_file(a, body, new)),
{
    let name = "last-used"@;
    let head = front(a) + section_text("configured"@, body) + "\n\n"@;
    let t = section_text(name, old_use);
    let file = whole_file(a, body, old_use);
    lemma_plain_names();
    assert(file =~= head + t + "\n"@);
    lemma_place(head, old_use, "\n"@, name);
    assert(file.subrange(0, head.len() as int) =~= head);
    assert(file.subrange((head.len() + t.len()) as int, file.len() as int) =~= "\n"@);
    assert(whole_file(a, body, new) =~= head + section_text(name, new) + "\n"@);
}

/// The configuration record of a file does not depend on the record of the last run.
proof fn lemma_same_record(a: Agreement, body: Seq<char>, old_use: Seq<char>, new: Seq<char>)
    requires
        plain_lines(body),
        plain_lines(old_use),
        recordable(new),
        block(whole_file(a, body, old_use), "configured"@) is Ok,
    ensures
        block(whole_file(a, body, new), "configured"@) == block(
            whole_file(a, body, old_use),
            "configured"@,
        ),
{
    let name = "configured"@;
    let x = normalised(front(a));
    lemma_plain_names();
    lemma_marks(name);
    lemma_distinct(name, "last-used"@);
    lemma_distinct("last-used"@, name);
    lemma_normal_file(a, body, old_use);
    lemma_normal_file(a, body, new);
    lemma_place(x, body, tail(old_use), name);
    lemma_tail_free(new, start_mark(name));
    lemma_tail_free(new, end_mark(name));
    lemma_plain_section(name, body);
    lemma_block_alone(whole_file(a, body, old_use), x, body, tail(old_use), name);
    lemma_block_alone(whole_file(a, body, new), x, body, tail(new), name);
}

/// What counts of a file is what stands outside of its two records.
proof fn lemma_counted(x: Seq<char>, body: Seq<char>, used: Seq<char>)
    requires
        clear_of(x, "configured"@),
        clear_of(body, "configured"@),
        clear_of(used, "configured"@),
        clear_of(x + "\n\n"@, "last-used"@),
        clear_of(used, "last-used"@),
    ensures
        without(x + section_text("configured"@, body) + tail(used), "configured"@) == Ok::<
            _,
            Seq<char>,
        >(x + tail(used)),
        without(x + tail(used), "last-used"@) == Ok::<_, Seq<char>>(x + "\n\n"@ + "\n"@),
{
    let one = "configured"@;
    let two = "last-used"@;
    let head = x + "\n\n"@;
    lemma_plain_names();
    lemma_marks(one);
    lemma_marks(two);
    lemma_distinct(one, two);
    lemma_distinct(two, one);
    lemma_tail_free(used, start_mark(one));
    lemma_tail_free(used, end_mark(one));
    lemma_found(x, body, tail(used), one);
    lemma_cut_out(x, section_text(one, body), tail(used));
    assert(x + tail(used) =~= head + section_text(two, used) + "\n"@);
    reveal_strlit("\n");
    lemma_no_angle("\n"@, start_mark(two));
    lemma_no_angle("\n"@, end_mark(two));
    lemma_found(head, used, "\n"@, two);
    lemma_cut_out(head, section_text(two, used), "\n"@);
}

/// A file with a fingerprint holds the marks of its records where these stand, and nowhere
/// else.
proof fn lemma_counted_marks(x: Seq<char>, body: Seq<char>, used: Seq<char>)
    requires
        without(x + section_text("configured"@, body) + tail(used), "configured"@) matches Ok(rest)
            && without(rest, "last-used"@) is Ok,
    ensures
        clear_of(x, "configured"@),
        clear_of(body, "configured"@),
        clear_of(used, "configured"@),
        clear_of(x + "\n\n"@, "last-used"@),
        clear_of(used, "last-used"@),
{
    let one = "configured"@;
    let two = "last-used"@;
    let head = x + "\n\n"@;
    let t = tail(used);
    lemma_plain_names();
    lemma_marks(one);
    lemma_marks(two);
    lemma_place(x, body, t, one);
    lemma_cut_out(x, section_text(one, body), t);
    assert(x + t =~= head + section_text(two, used) + "\n"@);
    lemma_place(head, used, "\n"@, two);
    reveal_strlit("\n");
    reveal_strlit("\n\n");
    let from = 2 + start_mark(two).len() + 1;
    let to = from + used.len();
    assert(t.subrange(from as int, to as int) =~= used);
    lemma_part(t, start_mark(one), from as int, to as int);
    lemma_part(t, end_mark(one), from as int, to as int);
}

/// What counts of a file does not depend on the record of the last run.
proof fn lemma_same_print(a: Agreement, body: Seq<char>, old_use: Seq<char>, new: Seq<char>)
    requires
        plain_lines(body),
        plain_lines(old_use),
        recordable(new),
        fingerprint_of(whole_file(a, body, old_use)) is Ok,
    ensures
        fingerprint_of(whole_file(a, body, new)) == fingerprint_of(whole_file(a, body, old_use)),
{
    let x = normalised(front(a));
    lemma_normal_file(a, body, old_use);
    lemma_normal_file(a, body, new);
    lemma_counted_marks(x, body, old_use);
    lemma_counted(x, body, old_use);
    lemma_counted(x, body, new);
}

/// What stands in a file between its settings and the record of the last run.
spec fn middle(a: Agreement, body: Seq<char>) -> Seq<char> {
    "\n\n"@ + section_text("defaults"@, defaults_body(a)) + "\n\n"@ + section_text(
        "configured"@,
        body,
    ) + "\n\n"@
}

/// A file, split at its settings.
proof fn lemma_settings_split(a: Agreement, body: Seq<char>, used: Seq<char>)
    ensures
        whole_file(a, body, used) == intro(a) + section_text("arguments"@, arguments_body(a)) + (
        middle(a, body) + section_text("last-used"@, used) + "\n"@),
{
    let t = section_text("arguments"@, arguments_body(a));
    let d = section_text("defaults"@, defaults_body(a));
    let c = section_text("configured"@, body);
    let u = section_text("last-used"@, used);
    let f = "\n\n"@;
    lemma_parts(a, JsonTree::Null, ""@);
    assert(front(a) == intro(a) + t + (f + d + f));
    assert(intro(a) + t + (f + d + f) + c + (f + u + "\n"@) =~= intro(a) + t + (f + d + f + c + f
        + u + "\n"@));
}

/// The lines of a file that is split at its settings.
proof fn lemma_settings_lines(a: Agreement, body: Seq<char>, used: Seq<char>)
    requires
        plain_lines(arguments_body(a)),
        plain_lines(used),
    ensures
        normalised(whole_file(a, body, used)) == normalised(intro(a)) + section_text(
            "arguments"@,
            arguments_body(a),
        ) + (normalised(middle(a, body)) + section_text("last-used"@, used) + "\n"@),
{
    let t = section_text("arguments"@, arguments_body(a));
    let u = section_text("last-used"@, used);
    let rest = middle(a, body) + u + "\n"@;
    lemma_settings_split(a, body, used);
    lemma_plain_names();
    lemma_plain_section("arguments"@, arguments_body(a));
    lemma_section_ends("arguments"@, arguments_body(a));
    lemma_normal_section(intro(a), t, rest);
    lemma_plain_section("last-used"@, used);
    lemma_section_ends("last-used"@, used);
    lemma_normal_section(middle(a, body), u, "\n"@);
    reveal_strlit("\n");
    lemma_plain("\n"@);
}

/// The settings of a file do not depend on the record of the last run.
proof fn lemma_same_settings(a: Agreement, body: Seq<char>, old_use: Seq<char>, new: Seq<char>)
    requires
        plain_lines(arguments_body(a)),
        plain_lines(old_use),
        recordable(new),
        block(whole_file(a, body, old_use), "arguments"@) is Ok,
    ensures
        block(whole_file(a, body, new), "arguments"@) == block(
            whole_file(a, body, old_use),
            "arguments"@,
        ),
{
    lemma_settings_lines(a, body, old_use);
    lemma_settings_lines(a, body, new);
    lemma_plain_names();
    lemma_plain_section("arguments"@, arguments_body(a));
    lemma_settings_found(
        whole_file(a, body, old_use),
        whole_file(a, body, new),
        normalised(intro(a)),
        arguments_body(a),
        normalised(middle(a, body)),
        old_use,
        new,
    );
}

proof fn lemma_settings_found(
    one: Seq<char>,
    other: Seq<char>,
    x: Seq<char>,
    settings: Seq<char>,
    m: Seq<char>,
    old_use: Seq<char>,
    new: Seq<char>,
)
    requires
        normalised(one) == x + section_text("arguments"@, settings) + (m + section_text(
            "last-used"@,
            old_use,
        ) + "\n"@),
        normalised(other) == x + section_text("arguments"@, settings) + (m + section_text(
            "last-used"@,
            new,
        ) + "\n"@),
        plain_lines(section_text("arguments"@, settings)),
        clear_of(new, "arguments"@),
        block(one, "arguments"@) is Ok,
    ensures
        block(other, "arguments"@) == block(one, "arguments"@),
{
    let name = "arguments"@;
    let two = "last-used"@;
    let y = m + section_text(two, old_use) + "\n"@;
    let z = m + section_text(two, new) + "\n"@;
    lemma_plain_names();
    lemma_marks(name);
    lemma_distinct(name, two);
    lemma_distinct(two, name);
    lemma_place(x, settings, y, name);
    assert(y.subrange(0, m.len() as int) =~= m);
    lemma_part(y, start_mark(name), 0, m.len() as int);
    lemma_part(y, end_mark(name), 0, m.len() as int);
    reveal_strlit("\n");
    lemma_no_angle("\n"@, start_mark(name));
    lemma_no_angle("\n"@, end_mark(name));
    lemma_foreign(m, new, "\n"@, two, start_mark(name));
    lemma_foreign(m, new, "\n"@, two, end_mark(name));
    lemma_block_alone(one, x, settings, y, name);
    lemma_block_alone(other, x, settings, z, name);
}

/// A file that counts as unchanged still does once a run is recorded in it, however often,
/// and gives back the same arguments.
pub proof fn law_recording_a_run_is_no_change(
    a: Agreement,
    contents: Seq<char>,
    new: Seq<char>,
    after: Seq<char>,
)
    requires
        kept(a, contents),
        sound(a, contents),
        recordable(new),
        with_use(contents, new) == Ok::<_, Seq<char>>(after),
    ensures
        kept(a, after),
        sound(a, after),
{
    let (body, used) = choose|body: Seq<char>, used: Seq<char>|
        contents == #[trigger] whole_file(a, body, used) && plain_lines(body) && plain_lines(used)
            && plain_lines(arguments_body(a));
    lemma_use_replaced(a, body, used, new);
    lemma_same_record(a, body, used, new);
    lemma_same_print(a, body, used, new);
    lemma_same_settings(a, body, used, new);
    assert(after == whole_file(a, body, new));
}

/// Whether the record of the last run can be taken over from a file, where it has one.
pub open spec fn carriable(previous: Option<Seq<char>>) -> bool {
    match previous {
        None => true,
        Some(file) => match span(file, "last-used"@) {
            Ok(Some(range)) => exists|used: Seq<char>|
                recordable(used) && file.subrange(range.0, range.1) == #[trigger] section_text(
                    "last-used"@,
                    used,
                ),
            _ => true,
        },
    }
}

/// A file that takes over the record of the last run counts as unchanged.
pub proof fn lemma_carried(a: Agreement, new: Seq<char>, previous: Option<Seq<char>>, after: Seq<char>)
    requires
        kept(a, new),
        sound(a, new),
        carriable(previous),
        carried(new, previous) == Ok::<_, Seq<char>>(after),
    ensures
        kept(a, after),
        sound(a, after),
{
    if let Some(file) = previous {
        if let Ok(Some(range)) = span(file, "last-used"@) {
            let used = choose|used: Seq<char>|
                recordable(used) && file.subrange(range.0, range.1) == #[trigger] section_text(
                    "last-used"@,
                    used,
                );
            if span(new, "last-used"@) matches Ok(Some(_)) {
                law_recording_a_run_is_no_change(a, new, used, after);
            }
        }
    }
}

/// A file that counts as unchanged still does, and gives back the same arguments, once its
/// line feeds became carriage returns and line feeds.
pub proof fn law_other_line_ends_are_no_change(a: Agreement, contents: Seq<char>)
    requires
        kept(a, contents),
        plain_lines(contents),
    ensures
        kept(a, replaced(contents, "\n"@, "\r\n"@)),
{
    law_line_ends_do_not_count(contents);
}

/// An edit that leaves the configuration record of an unchanged file alone makes it count as
/// changed if and only if what counts of it has another fingerprint.
pub proof fn law_edits_are_noticed(a: Agreement, contents: Seq<char>, edited: Seq<char>)
    requires
        kept(a, contents),
        block(edited, "configured"@) == block(contents, "configured"@),
    ensures
        changed_since(document(edited, "configured"@), fingerprint_of(edited)) <==> fingerprint_of(
            edited,
        ) != fingerprint_of(contents),
{
}

/// The body that records a run can stand in the file, where the texts of the record hold no
/// marks.
pub proof fn lemma_recordable(record: UseRecord)
    requires
        written(use_tree(record)),
        unmarked(record),
    ensures
        recordable(use_body(record)),
{
    let head = "## Last used\n\nRecorded at launch; this is not a claim that the run completed.\n\n"@;
    let text = pretty_json(use_tree(record));
    reveal_strlit(
        "## Last used\n\nRecorded at launch; this is not a claim that the run completed.\n\n",
    );
    reveal_strlit(
        "## Last used\n\nRecorded at launch; this is not a claim that the run completed.\n\n```json\n",
    );
    reveal_strlit("```json\n");
    assert("## Last used\n\nRecorded at launch; this is not a claim that the run completed.\n\n```json\n"@
        =~= head + "```json\n"@);
    assert(use_body(record) =~= fenced(head, text));
    assert(bare(head));
    lemma_plain_heading(head);
    lemma_plain_fenced(head, text);
    lemma_plain_names();
    lemma_unmarked_body(record, head, "arguments"@);
    lemma_unmarked_body(record, head, "configured"@);
    lemma_unmarked_body(record, head, "last-used"@);
}

proof fn lemma_unmarked_body(record: UseRecord, head: Seq<char>, name: Seq<char>)
    requires
        written(use_tree(record)),
        bare(head),
        plain_name(name),
        tree_clear_of(use_tree(record), name),
    ensures
        clear_of(fenced(head, pretty_json(use_tree(record))), name),
{
    let text = pretty_json(use_tree(record));
    lemma_marks(name);
    lemma_literal_marks(name);
    assert(free_of(text, start_mark(name)));
    assert(free_of(text, end_mark(name)));
    lemma_fenced_free(head, text, start_mark(name));
    lemma_fenced_free(head, text, end_mark(name));
}

} // verus!
