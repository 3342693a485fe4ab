//! What some models are known to confuse: the catalogue of incidents, the guidance that
//! warns of them and the script that rejects them.
use crate::failure::{fail, fail_with, Failure};
use crate::text::{
    cat2, cat3, cat4, cat5, cat7, chars_of, contains, contains_text, equal, join, joined, lowered,
    occurs_at, replace, replaced, texts, to_lower, trim, trim_end, trimmed, trimmed_end,
};
use vstd::prelude::*;
use vstd::string::*;

verus! {

/// One thing that a model confused.
#[derive(Debug, Clone)]
pub struct ModelConfusion {
    pub id: String,
    pub observed_with: Vec<String>,
    pub forbidden_literal: String,
    pub guidance: String,
    pub diagnostic: String,
}

/// A [`ModelConfusion`] by view.
pub struct ConfusionView {
    pub id: Seq<char>,
    pub observed_with: Seq<Seq<char>>,
    pub forbidden_literal: Seq<char>,
    pub guidance: Seq<char>,
    pub diagnostic: Seq<char>,
}

impl View for ModelConfusion {
    type V = ConfusionView;

    open spec fn view(&self) -> ConfusionView {
        ConfusionView {
            id: self.id@,
            observed_with: texts(self.observed_with@),
            forbidden_literal: self.forbidden_literal@,
            guidance: self.guidance@,
            diagnostic: self.diagnostic@,
        }
    }
}

/// All that is known to be confused.
#[derive(Debug, Clone)]
pub struct Catalog {
    pub confusion: Vec<ModelConfusion>,
}

impl View for Catalog {
    type V = Seq<ConfusionView>;

    open spec fn view(&self) -> Seq<ConfusionView> {
        self.confusion@.map_values(|c: ModelConfusion| c@)
    }
}

/// Whether an entry says all that it has to say.
pub open spec fn complete(c: ConfusionView) -> bool {
    &&& trimmed(c.id).len() > 0
    &&& c.observed_with.len() > 0
    &&& c.forbidden_literal.len() > 0
    &&& !c.forbidden_literal.contains('\n')
    &&& !c.forbidden_literal.contains('\r')
    &&& trimmed(c.guidance).len() > 0
    &&& trimmed(c.diagnostic).len() > 0
}

/// Whether an earlier entry has the id.
pub open spec fn id_used(list: Seq<ConfusionView>, id: Seq<char>) -> bool {
    exists|i: int| 0 <= i < list.len() && (#[trigger] list[i]).id == id
}

/// Whether an earlier entry forbids the literal, but for the case of its letters.
pub open spec fn literal_used(list: Seq<ConfusionView>, literal: Seq<char>) -> bool {
    exists|i: int|
        0 <= i < list.len() && lowered((#[trigger] list[i]).forbidden_literal) == lowered(literal)
}

pub const INCOMPLETE: &'static str =
    "model-confusion entries require an id, observed model, one-line literal, guidance, and diagnostic";

/// What is wrong with the first entry that is not right.
pub open spec fn entries_fault(list: Seq<ConfusionView>) -> Option<Seq<char>>
    decreases list.len(),
{
    if list.len() == 0 {
        None
    } else {
        let rest = list.drop_last();
        let c = list.last();
        match entries_fault(rest) {
            Some(message) => Some(message),
            None => if !complete(c) {
                Some(INCOMPLETE@)
            } else if id_used(rest, c.id) {
                Some("duplicate model-confusion id `"@ + c.id + "`"@)
            } else if literal_used(rest, c.forbidden_literal) {
                Some(
                    "duplicate model-confusion forbidden literal `"@ + c.forbidden_literal + "`"@,
                )
            } else {
                None
            },
        }
    }
}

/// What is wrong with a catalogue.
pub open spec fn catalog_fault(list: Seq<ConfusionView>) -> Option<Seq<char>> {
    if list.len() == 0 {
        Some("model-confusion catalogue must contain at least one entry"@)
    } else {
        entries_fault(list)
    }
}

fn is_complete(c: &ModelConfusion) -> (r: bool)
    ensures
        r == complete(c@),
{
    let id = trim(c.id.as_str());
    let guidance = trim(c.guidance.as_str());
    let diagnostic = trim(c.diagnostic.as_str());
    let literal = chars_of(c.forbidden_literal.as_str());
    let mut i: usize = 0;
    assert(literal@ == c@.forbidden_literal);
    if literal.len() == 0 {
        return false;
    }
    while i < literal.len()
        invariant
            i <= literal@.len(),
            literal@ == c@.forbidden_literal,
            forall|k: int| 0 <= k < i ==> #[trigger] literal@[k] != '\n' && literal@[k] != '\r',
        decreases literal@.len() - i,
    {
        if literal[i] == '\n' || literal[i] == '\r' {
            assert(c@.forbidden_literal[i as int] == literal@[i as int]);
            return false;
        }
        i += 1;
    }
    chars_of(id.as_str()).len() > 0 && c.observed_with.len() > 0 && chars_of(
        guidance.as_str(),
    ).len() > 0 && chars_of(diagnostic.as_str()).len() > 0
}

proof fn lemma_faulty_prefix(list: Seq<ConfusionView>, n: int)
    requires
        0 <= n <= list.len(),
        entries_fault(list.take(n)) is Some,
    ensures
        entries_fault(list) == entries_fault(list.take(n)),
    decreases list.len(),
{
    if n < list.len() {
        assert(list.drop_last().take(n) =~= list.take(n));
        lemma_faulty_prefix(list.drop_last(), n);
    } else {
        assert(list.take(n) =~= list);
    }
}

fn find_earlier(list: &Vec<ModelConfusion>, n: usize) -> (r: (bool, bool))
    requires
        n < list@.len(),
    ensures
        ({
            let all = list@.map_values(|c: ModelConfusion| c@);
            &&& r.0 == id_used(all.take(n as int), all[n as int].id)
            &&& r.1 == literal_used(all.take(n as int), all[n as int].forbidden_literal)
        }),
{
    let ghost all = list@.map_values(|c: ModelConfusion| c@);
    let ghost before = all.take(n as int);
    let own = to_lower(list[n].forbidden_literal.as_str());
    let mut same_id = false;
    let mut same_literal = false;
    let mut i: usize = 0;
    while i < n
        invariant
            i <= n < list@.len(),
            all == list@.map_values(|c: ModelConfusion| c@),
            before == all.take(n as int),
            own@ == lowered(all[n as int].forbidden_literal),
            same_id == exists|k: int| 0 <= k < i && (#[trigger] before[k]).id == all[n as int].id,
            same_literal == exists|k: int|
                0 <= k < i && lowered((#[trigger] before[k]).forbidden_literal) == own@,
        decreases n - i,
    {
        assert(before[i as int] == list@[i as int]@);
        if equal(list[i].id.as_str(), list[n].id.as_str()) {
            same_id = true;
        }
        let other = to_lower(list[i].forbidden_literal.as_str());
        if equal(other.as_str(), own.as_str()) {
            same_literal = true;
        }
        i += 1;
    }
    (same_id, same_literal)
}

/// Checks a catalogue that was read.
pub fn validate_catalog(catalog: &Catalog) -> (r: Result<(), Failure>)
    ensures
        match catalog_fault(catalog@) {
            None => r is Ok,
            Some(message) => r matches Err(e) && e.message@ == message,
        },
{
    let list = &catalog.confusion;
    let ghost all = catalog@;
    if list.len() == 0 {
        return fail_with("model-confusion catalogue must contain at least one entry");
    }
    let mut i: usize = 0;
    assert(all.take(0) =~= Seq::empty());
    while i < list.len()
        invariant
            i <= list@.len(),
            all == catalog@,
            *list == catalog.confusion,
            all.len() > 0,
            entries_fault(all.take(i as int)) is None,
        decreases list@.len() - i,
    {
        proof {
            let upto = all.take(i + 1);
            assert(upto.drop_last() =~= all.take(i as int));
            assert(upto.last() == list@[i as int]@);
            if entries_fault(upto) is Some {
                lemma_faulty_prefix(all, i + 1);
            }
        }
        if !is_complete(&list[i]) {
            return fail_with(INCOMPLETE);
        }
        let used = find_earlier(list, i);
        if used.0 {
            return fail(
                cat3("duplicate model-confusion id `", list[i].id.as_str(), "`"),
            );
        }
        if used.1 {
            return fail(
                cat3(
                    "duplicate model-confusion forbidden literal `",
                    list[i].forbidden_literal.as_str(),
                    "`",
                ),
            );
        }
        i += 1;
    }
    assert(all.take(i as int) =~= all);
    Ok(())
}

/// No two entries of an accepted catalogue share an id or a literal.
pub proof fn law_entries_are_distinct(list: Seq<ConfusionView>, i: int, j: int)
    requires
        catalog_fault(list) is None,
        0 <= i < j < list.len(),
    ensures
        list[i].id != list[j].id,
        lowered(list[i].forbidden_literal) != lowered(list[j].forbidden_literal),
    decreases list.len(),
{
    let rest = list.drop_last();
    if j < rest.len() {
        law_entries_are_distinct(rest, i, j);
    } else {
        assert(rest[i] == list[i]);
    }
}

/// One line of guidance.
pub open spec fn guidance_line(c: ConfusionView) -> Seq<char> {
    "- Incident `"@ + c.id + "` (observed with "@ + joined(c.observed_with, ", "@) + "): "@
        + c.guidance + "\n"@
}

pub open spec fn guidance_lines(list: Seq<ConfusionView>) -> Seq<char>
    decreases list.len(),
{
    if list.len() == 0 {
        Seq::empty()
    } else {
        guidance_lines(list.drop_last()) + guidance_line(list.last())
    }
}

/// The guidance under a heading.
pub open spec fn guidance_text(heading: Seq<char>, list: Seq<ConfusionView>) -> Seq<char> {
    trimmed_end(heading + "\n\n"@ + guidance_lines(list))
}

pub fn render_guidance(heading: &str, catalog: &Catalog) -> (r: String)
    ensures
        r@ == guidance_text(heading@, catalog@),
{
    let list = &catalog.confusion;
    let ghost all = catalog@;
    let head = cat2(heading, "\n\n");
    let mut body = "".to_owned();
    let mut i: usize = 0;
    proof {
        reveal_strlit("");
        assert(all.take(0) =~= Seq::empty());
        assert(body@ =~= Seq::empty());
    }
    while i < list.len()
        invariant
            i <= list@.len(),
            all == catalog@,
            *list == catalog.confusion,
            body@ == guidance_lines(all.take(i as int)),
        decreases list@.len() - i,
    {
        proof {
            let upto = all.take(i + 1);
            assert(upto.drop_last() =~= all.take(i as int));
            assert(upto.last() == list@[i as int]@);
        }
        let c = &list[i];
        let models = join(&c.observed_with, ", ");
        let line = cat7(
            "- Incident `",
            c.id.as_str(),
            "` (observed with ",
            models.as_str(),
            "): ",
            c.guidance.as_str(),
            "\n",
        );
        body = cat2(body.as_str(), line.as_str());
        i += 1;
    }
    assert(all.take(i as int) =~= all);
    let whole = cat2(head.as_str(), body.as_str());
    trim_end(whole.as_str())
}

/// The guidance as prompts carry it.
pub fn prompt_guidance(catalog: &Catalog) -> (r: String)
    ensures
        r@ == guidance_text("KNOWN MODEL-SPECIFIC CONFUSIONS"@, catalog@),
{
    render_guidance("KNOWN MODEL-SPECIFIC CONFUSIONS", catalog)
}

/// The guidance as the guide file carries it.
pub fn claude_md_guidance(catalog: &Catalog) -> (r: String)
    ensures
        r@ == guidance_text("### Known model-specific confusions"@, catalog@),
{
    render_guidance("### Known model-specific confusions", catalog)
}

/// A text in single quotes, as a shell reads it back.
pub open spec fn single_quoted(s: Seq<char>) -> Seq<char> {
    "'"@ + replaced(s, "'"@, "'\"'\"'"@) + "'"@
}

pub fn shell_quote(value: &str) -> (r: String)
    ensures
        r@ == single_quoted(value@),
{
    proof {
        reveal_strlit("'");
    }
    let inner = replace(value, "'", "'\"'\"'");
    cat3("'", inner.as_str(), "'")
}

pub const SCRIPT_HEAD: &'static str = "#!/bin/sh\n\ninput=$(cat)\n\n";

pub const STOP_TEST: &'static str =
    "if printf '%s' \"$input\" | grep -Eq '\"hook_event_name\"[[:space:]]*:[[:space:]]*\"Stop\"'; then\n";

pub const STOP_CHECK: &'static str =
    " -- . >/dev/null 2>&1\n    status=$?\n    if [ \"$status\" -eq 0 ]; then\n        printf '%s\\n' ";

pub const STOP_TAIL: &'static str =
    " >&2\n        exit 2\n    fi\n    if [ \"$status\" -gt 1 ]; then\n        printf '%s\\n' 'opsx-build could not verify the repository model-confusion invariant; do not finish until the repository can be checked' >&2\n        exit 2\n    fi\n";

pub const STOP_ADVICE: &'static str =
    "`. Correct it without bypassing or disabling the guard, then finish the stage again.";

/// The part of the script that looks at one entry before a tool runs.
pub open spec fn tool_guard(c: ConfusionView) -> Seq<char> {
    "if printf '%s' \"$input\" | grep -Fqi -- "@ + single_quoted(c.forbidden_literal)
        + "; then\n    printf '%s\\n' "@ + single_quoted(
        "Rejected by opsx-build incident `"@ + c.id + "`. "@ + c.diagnostic,
    ) + " >&2\n    exit 2\nfi\n\n"@
}

/// The part of the script that looks at one entry before a stage ends.
pub open spec fn stop_guard(c: ConfusionView) -> Seq<char> {
    "    git grep --no-index -I -Fqi -- "@ + single_quoted(c.forbidden_literal) + STOP_CHECK@
        + single_quoted(
        "Rejected stage completion by opsx-build incident `"@ + c.id
            + "`. Repository content still contains the forbidden literal `"@ + c.forbidden_literal
            + STOP_ADVICE@,
    ) + STOP_TAIL@
}

pub open spec fn tool_guards(list: Seq<ConfusionView>) -> Seq<char>
    decreases list.len(),
{
    if list.len() == 0 {
        Seq::empty()
    } else {
        tool_guards(list.drop_last()) + tool_guard(list.last())
    }
}

pub open spec fn stop_guards(list: Seq<ConfusionView>) -> Seq<char>
    decreases list.len(),
{
    if list.len() == 0 {
        Seq::empty()
    } else {
        stop_guards(list.drop_last()) + stop_guard(list.last())
    }
}

/// The script that rejects what is known to be confused.
pub open spec fn reject_script(list: Seq<ConfusionView>) -> Seq<char> {
    SCRIPT_HEAD@ + tool_guards(list) + STOP_TEST@ + stop_guards(list) + "fi\n\n"@ + "exit 0\n"@
}

fn render_tool_guard(c: &ModelConfusion) -> (r: String)
    ensures
        r@ == tool_guard(c@),
{
    let literal = shell_quote(c.forbidden_literal.as_str());
    let message = cat4(
        "Rejected by opsx-build incident `",
        c.id.as_str(),
        "`. ",
        c.diagnostic.as_str(),
    );
    let quoted = shell_quote(message.as_str());
    cat5(
        "if printf '%s' \"$input\" | grep -Fqi -- ",
        literal.as_str(),
        "; then\n    printf '%s\\n' ",
        quoted.as_str(),
        " >&2\n    exit 2\nfi\n\n",
    )
}

fn render_stop_guard(c: &ModelConfusion) -> (r: String)
    ensures
        r@ == stop_guard(c@),
{
    let literal = shell_quote(c.forbidden_literal.as_str());
    let message = cat5(
        "Rejected stage completion by opsx-build incident `",
        c.id.as_str(),
        "`. Repository content still contains the forbidden literal `",
        c.forbidden_literal.as_str(),
        STOP_ADVICE,
    );
    let quoted = shell_quote(message.as_str());
    cat5(
        "    git grep --no-index -I -Fqi -- ",
        literal.as_str(),
        STOP_CHECK,
        quoted.as_str(),
        STOP_TAIL,
    )
}

pub fn render_reject_script(catalog: &Catalog) -> (r: String)
    ensures
        r@ == reject_script(catalog@),
{
    let list = &catalog.confusion;
    let ghost all = catalog@;
    let mut tools = "".to_owned();
    let mut stops = "".to_owned();
    let mut i: usize = 0;
    proof {
        reveal_strlit("");
        assert(all.take(0) =~= Seq::empty());
        assert(tools@ =~= Seq::empty());
        assert(stops@ =~= Seq::empty());
    }
    while i < list.len()
        invariant
            i <= list@.len(),
            all == catalog@,
            *list == catalog.confusion,
            tools@ == tool_guards(all.take(i as int)),
            stops@ == stop_guards(all.take(i as int)),
        decreases list@.len() - i,
    {
        proof {
            let upto = all.take(i + 1);
            assert(upto.drop_last() =~= all.take(i as int));
            assert(upto.last() == list@[i as int]@);
        }
        let tool = render_tool_guard(&list[i]);
        let stop = render_stop_guard(&list[i]);
        tools = cat2(tools.as_str(), tool.as_str());
        stops = cat2(stops.as_str(), stop.as_str());
        i += 1;
    }
    assert(all.take(i as int) =~= all);
    let whole = cat5(SCRIPT_HEAD, tools.as_str(), STOP_TEST, stops.as_str(), "fi\n\n");
    cat2(whole.as_str(), "exit 0\n")
}

proof fn lemma_guard_inside(list: Seq<ConfusionView>, i: int)
    requires
        0 <= i < list.len(),
    ensures
        contains_text(tool_guards(list), tool_guard(list[i])),
        contains_text(stop_guards(list), stop_guard(list[i])),
    decreases list.len(),
{
    let rest = list.drop_last();
    let tools = tool_guards(rest);
    let stops = stop_guards(rest);
    let tool = tool_guard(list.last());
    let stop = stop_guard(list.last());
    let none = Seq::<char>::empty();
    if i < rest.len() {
        lemma_guard_inside(rest, i);
        lemma_inside(none, tools, tool, tool_guard(list[i]));
        lemma_inside(none, stops, stop, stop_guard(list[i]));
        assert(none + tools + tool =~= tool_guards(list));
        assert(none + stops + stop =~= stop_guards(list));
    } else {
        lemma_whole(tool);
        lemma_whole(stop);
        lemma_inside(tools, tool, none, tool);
        lemma_inside(stops, stop, none, stop);
        assert(tools + tool + none =~= tool_guards(list));
        assert(stops + stop + none =~= stop_guards(list));
    }
}

proof fn lemma_whole(s: Seq<char>)
    ensures
        contains_text(s, s),
{
    assert(s.subrange(0, s.len() as int) =~= s);
    assert(occurs_at(s, s, 0));
}

proof fn lemma_inside(a: Seq<char>, s: Seq<char>, b: Seq<char>, p: Seq<char>)
    requires
        contains_text(s, p),
    ensures
        contains_text(a + s + b, p),
{
    let i = choose|i: int| occurs_at(s, p, i);
    assert((a + s + b).subrange(a.len() + i, a.len() + i + p.len()) =~= s.subrange(i, i + p.len()));
    assert(occurs_at(a + s + b, p, a.len() + i));
}

/// Every entry of the catalogue is looked for before a tool runs and before a stage ends.
pub proof fn law_every_entry_is_guarded(list: Seq<ConfusionView>, i: int)
    requires
        0 <= i < list.len(),
    ensures
        contains_text(reject_script(list), tool_guard(list[i])),
        contains_text(reject_script(list), stop_guard(list[i])),
{
    lemma_guard_inside(list, i);
    let tools = tool_guards(list);
    let stops = stop_guards(list);
    let end = "fi\n\n"@ + "exit 0\n"@;
    lemma_inside(SCRIPT_HEAD@, tools, STOP_TEST@ + stops + end, tool_guard(list[i]));
    lemma_inside(SCRIPT_HEAD@ + tools + STOP_TEST@, stops, end, stop_guard(list[i]));
    assert(SCRIPT_HEAD@ + tools + (STOP_TEST@ + stops + end) =~= reject_script(list));
    assert((SCRIPT_HEAD@ + tools + STOP_TEST@) + stops + end =~= reject_script(list));
}

/// A catalogue is accepted where it has entries, each says all that it has to say, and no two
/// share an id or a literal.
pub proof fn law_sound_catalogues_are_accepted(list: Seq<ConfusionView>)
    ensures
        catalog_fault(list) is None <==> list.len() > 0 && (forall|i: int|
            0 <= i < list.len() ==> complete(#[trigger] list[i])) && (forall|i: int, j: int|
            0 <= i < j < list.len() ==> (#[trigger] list[i]).id != (#[trigger] list[j]).id
                && lowered(list[i].forbidden_literal) != lowered(list[j].forbidden_literal)),
{
    lemma_entries(list);
}

proof fn lemma_entries(list: Seq<ConfusionView>)
    ensures
        entries_fault(list) is None <==> (forall|i: int|
            0 <= i < list.len() ==> complete(#[trigger] list[i])) && (forall|i: int, j: int|
            0 <= i < j < list.len() ==> (#[trigger] list[i]).id != (#[trigger] list[j]).id
                && lowered(list[i].forbidden_literal) != lowered(list[j].forbidden_literal)),
    decreases list.len(),
{
    if list.len() > 0 {
        let rest = list.drop_last();
        lemma_entries(rest);
        assert forall|i: int| 0 <= i < rest.len() implies rest[i] == list[i] by {}
        let last = list.len() - 1;
        if entries_fault(list) is None {
            assert forall|i: int| 0 <= i < list.len() implies complete(#[trigger] list[i]) by {
                if i < last {
                    assert(complete(rest[i]));
                }
            }
            assert forall|i: int, j: int| 0 <= i < j < list.len() implies (#[trigger] list[i]).id
                != (#[trigger] list[j]).id && lowered(list[i].forbidden_literal) != lowered(
                list[j].forbidden_literal,
            ) by {
                assert(rest[i] == list[i]);
                if j < last {
                    assert(rest[j] == list[j]);
                }
            }
        } else if entries_fault(rest) is None {
            if complete(list.last()) {
                if id_used(rest, list.last().id) {
                    let i = choose|i: int|
                        0 <= i < rest.len() && (#[trigger] rest[i]).id == list.last().id;
                    assert(list[i].id == list[last].id);
                } else {
                    let i = choose|i: int|
                        0 <= i < rest.len() && lowered((#[trigger] rest[i]).forbidden_literal)
                            == lowered(list.last().forbidden_literal);
                    assert(lowered(list[i].forbidden_literal) == lowered(
                        list[last].forbidden_literal,
                    ));
                }
            } else {
                assert(!complete(list[last]));
            }
        } else {
            if forall|i: int| 0 <= i < list.len() ==> complete(#[trigger] list[i]) {
                assert forall|i: int| 0 <= i < rest.len() implies complete(#[trigger] rest[i]) by {
                    assert(complete(list[i]));
                }
                let (i, j) = choose|i: int, j: int|
                    0 <= i < j < rest.len() && !((#[trigger] rest[i]).id != (
                    #[trigger] rest[j]).id && lowered(rest[i].forbidden_literal) != lowered(
                        rest[j].forbidden_literal,
                    ));
                assert(rest[i] == list[i] && rest[j] == list[j]);
            }
        }
    }
}

/// What an entry has to say: an id, a model that it was observed with, a literal on one line,
/// guidance and a diagnostic.
pub proof fn law_what_an_entry_has_to_say(c: ConfusionView)
    ensures
        complete(c) <==> trimmed(c.id).len() > 0 && c.observed_with.len() > 0
            && c.forbidden_literal.len() > 0 && !c.forbidden_literal.contains('\n')
            && !c.forbidden_literal.contains('\r') && trimmed(c.guidance).len() > 0 && trimmed(
            c.diagnostic,
        ).len() > 0,
{
}

/// Every entry has its line of guidance, which names it, the models that it was observed with
/// and what is to be done.
pub proof fn law_every_entry_is_explained(list: Seq<ConfusionView>, i: int)
    requires
        0 <= i < list.len(),
    ensures
        contains_text(
            guidance_lines(list),
            "- Incident `"@ + list[i].id + "` (observed with "@ + joined(list[i].observed_with, ", "@)
                + "): "@ + list[i].guidance + "\n"@,
        ),
    decreases list.len(),
{
    let line = guidance_line(list[i]);
    let rest = list.drop_last();
    let whole = guidance_lines(list);
    if i < rest.len() {
        law_every_entry_is_explained(rest, i);
        assert(rest[i] == list[i]);
        let at = choose|at: int| crate::text::occurs_at(guidance_lines(rest), line, at);
        assert(whole.subrange(at, at + line.len()) =~= guidance_lines(rest).subrange(
            at,
            at + line.len(),
        ));
        assert(crate::text::occurs_at(whole, line, at));
    } else {
        let at = guidance_lines(rest).len() as int;
        assert(whole.subrange(at, at + line.len()) =~= line);
        assert(crate::text::occurs_at(whole, line, at));
    }
}

/// A guard looks for the literal of its entry, quoted for the shell, stops what holds it, and
/// says which entry it was and what to do.
pub proof fn law_guards_look_for_their_literal(c: ConfusionView)
    ensures
        ("if printf '%s' \"$input\" | grep -Fqi -- "@ + single_quoted(
            c.forbidden_literal,
        )).is_prefix_of(tool_guard(c)),
        contains_text(
            tool_guard(c),
            single_quoted("Rejected by opsx-build incident `"@ + c.id + "`. "@ + c.diagnostic)
                + " >&2\n    exit 2\n"@,
        ),
        ("    git grep --no-index -I -Fqi -- "@ + single_quoted(c.forbidden_literal)).is_prefix_of(
            stop_guard(c),
        ),
        contains_text(
            stop_guard(c),
            single_quoted(
                "Rejected stage completion by opsx-build incident `"@ + c.id
                    + "`. Repository content still contains the forbidden literal `"@
                    + c.forbidden_literal + STOP_ADVICE@,
            ),
        ),
{
    reveal_strlit(" >&2\n    exit 2\nfi\n\n");
    reveal_strlit(" >&2\n    exit 2\n");
    let t = tool_guard(c);
    let a = "if printf '%s' \"$input\" | grep -Fqi -- "@ + single_quoted(c.forbidden_literal);
    assert(t.subrange(0, a.len() as int) =~= a);
    let middle = "; then\n    printf '%s\\n' "@;
    let q = single_quoted("Rejected by opsx-build incident `"@ + c.id + "`. "@ + c.diagnostic);
    let told = q + " >&2\n    exit 2\n"@;
    let at = a.len() as int + middle.len();
    assert(t.subrange(at, at + told.len()) =~= told);
    assert(crate::text::occurs_at(t, told, at));
    let s = stop_guard(c);
    let b = "    git grep --no-index -I -Fqi -- "@ + single_quoted(c.forbidden_literal);
    assert(s.subrange(0, b.len() as int) =~= b);
    let r = single_quoted(
        "Rejected stage completion by opsx-build incident `"@ + c.id
            + "`. Repository content still contains the forbidden literal `"@ + c.forbidden_literal
            + STOP_ADVICE@,
    );
    let from = b.len() as int + STOP_CHECK@.len();
    assert(s.subrange(from, from + r.len()) =~= r);
    assert(crate::text::occurs_at(s, r, from));
}

} // verus!
