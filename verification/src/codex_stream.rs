//! What is shown of the events of the second harness: its commands and messages as they
//! come, and its reasoning by paragraphs, each once.
use crate::json::{
    as_items, as_signed, as_text, as_unsigned, encode_json, encoded_json, get_in, items_in, member,
    member_of, signed_in, target, text_in, unsigned_in, Json,
};
use crate::numeral::{signed_decimal, signed_text};
use crate::stream::{ItemView, StreamFilter, StreamItem};
use crate::text::{
    before, cat2, chars_of, equal, find_chars, find_from, holds, is_before, join, joined,
    lemma_before_total, lemma_before_transitive, lemma_find_from, lemma_seen_all_push, push_text,
    seen_all, starts, str_option, string_of, texts, trim, trimmed, words, words_of,
};
use vstd::prelude::*;
use vstd::string::*;

verus! {

/// How much of one summary is shown.
pub const MAX_REASONING_SUMMARY_CHARS: usize = 600;

/// How long the line of a command may be.
pub const LINE_LIMIT: usize = 240;

/// A summary of the agent's reasoning: what has come of it, how far it was shown, and
/// whether it was cut.
#[derive(Debug, Clone)]
pub struct ReasoningSummary {
    pub text: Vec<char>,
    pub emitted: usize,
    pub truncated: bool,
}

pub struct SummaryView {
    pub text: Seq<char>,
    pub emitted: int,
    pub truncated: bool,
}

impl View for ReasoningSummary {
    type V = SummaryView;

    open spec fn view(&self) -> SummaryView {
        SummaryView { text: self.text@, emitted: self.emitted as int, truncated: self.truncated }
    }
}

/// A summary of which nothing has come.
pub open spec fn no_summary() -> SummaryView {
    SummaryView { text: Seq::empty(), emitted: 0, truncated: false }
}

impl SummaryView {
    /// Nothing was shown that has not come.
    pub open spec fn well_formed(self) -> bool {
        0 <= self.emitted <= self.text.len()
    }
}

/// A text on one line, with single blanks.
pub open spec fn squeezed(text: Seq<char>) -> Seq<char> {
    joined(words_of(text), " "@)
}

/// A paragraph as it is shown: one without words is not.
pub open spec fn paragraph(text: Seq<char>) -> Seq<ItemView> {
    if squeezed(text).len() == 0 {
        Seq::empty()
    } else {
        seq![ItemView::Reasoning(squeezed(text))]
    }
}

/// The paragraphs of a text from `from` on that are shown, and how far that is: those
/// that an empty line ends, and the last one where the text is complete.
pub open spec fn drained(text: Seq<char>, from: int, complete: bool) -> (Seq<ItemView>, int)
    decreases text.len() - from,
{
    match find_from(text, "\n\n"@, from) {
        Some(end) => if 0 <= from <= end && end + 2 <= text.len() {
            let rest = drained(text, end + 2, complete);
            (paragraph(text.subrange(from, end)) + rest.0, rest.1)
        } else {
            (Seq::empty(), from)
        },
        None => if complete && 0 <= from < text.len() {
            (paragraph(text.subrange(from, text.len() as int)), text.len() as int)
        } else {
            (Seq::empty(), from)
        },
    }
}

/// A summary after its paragraphs were shown.
pub open spec fn summary_drained(s: SummaryView, complete: bool) -> (SummaryView, Seq<ItemView>) {
    let shown = drained(s.text, s.emitted, complete);
    (SummaryView { emitted: shown.1, ..s }, shown.0)
}

/// A summary after more of it came. What goes beyond the limit is cut, once.
pub open spec fn summary_appended(s: SummaryView, delta: Seq<char>) -> (
    SummaryView,
    Seq<ItemView>,
) {
    let room = MAX_REASONING_SUMMARY_CHARS - s.text.len();
    if s.truncated {
        (s, Seq::empty())
    } else if delta.len() <= room {
        summary_drained(SummaryView { text: s.text + delta, ..s }, false)
    } else {
        summary_drained(
            SummaryView {
                text: (s.text + delta.take(if room > 0 {
                    room
                } else {
                    0
                })).push('…'),
                truncated: true,
                ..s
            },
            true,
        )
    }
}

/// A summary after the whole of it came: what was missing is shown too.
pub open spec fn summary_completed(s: SummaryView, text: Seq<char>) -> (
    SummaryView,
    Seq<ItemView>,
) {
    let first = if starts(text, s.text) {
        summary_appended(s, text.subrange(s.text.len() as int, text.len() as int))
    } else {
        (s, Seq::empty())
    };
    let second = summary_drained(first.0, true);
    (second.0, first.1 + second.1)
}

proof fn lemma_drained_bounds(text: Seq<char>, from: int, complete: bool)
    requires
        0 <= from <= text.len(),
    ensures
        from <= drained(text, from, complete).1 <= text.len(),
    decreases text.len() - from,
{
    lemma_find_from(text, "\n\n"@, from);
    match find_from(text, "\n\n"@, from) {
        Some(end) => {
            if end + 2 <= text.len() {
                lemma_drained_bounds(text, end + 2, complete);
            }
        },
        None => {},
    }
}

/// A summary stays well-formed, whatever comes and is shown of it.
pub proof fn law_summaries_stay_well_formed(s: SummaryView, text: Seq<char>, complete: bool)
    requires
        s.well_formed(),
    ensures
        summary_drained(s, complete).0.well_formed(),
        summary_appended(s, text).0.well_formed(),
        summary_completed(s, text).0.well_formed(),
{
    lemma_drained_bounds(s.text, s.emitted, complete);
    lemma_appended(s, text);
    if starts(text, s.text) {
        lemma_appended(s, text.subrange(s.text.len() as int, text.len() as int));
        let a = summary_appended(s, text.subrange(s.text.len() as int, text.len() as int)).0;
        lemma_drained_bounds(a.text, a.emitted, true);
    } else {
        lemma_drained_bounds(s.text, s.emitted, true);
    }
}

proof fn lemma_appended(s: SummaryView, delta: Seq<char>)
    requires
        s.well_formed(),
    ensures
        summary_appended(s, delta).0.well_formed(),
{
    let room = MAX_REASONING_SUMMARY_CHARS - s.text.len();
    if !s.truncated {
        if delta.len() <= room {
            lemma_drained_bounds(s.text + delta, s.emitted, false);
        } else {
            let cut = (s.text + delta.take(if room > 0 {
                room
            } else {
                0
            })).push('…');
            lemma_drained_bounds(cut, s.emitted, true);
        }
    }
}

/// A summary that was cut is never added to, and no summary holds more than the limit
/// and the sign that it was cut.
pub proof fn law_summaries_are_bounded(s: SummaryView, delta: Seq<char>)
    requires
        s.text.len() <= MAX_REASONING_SUMMARY_CHARS + 1,
        !s.truncated ==> s.text.len() <= MAX_REASONING_SUMMARY_CHARS,
    ensures
        ({
            let t = summary_appended(s, delta).0;
            &&& t.text.len() <= MAX_REASONING_SUMMARY_CHARS + 1
            &&& !t.truncated ==> t.text.len() <= MAX_REASONING_SUMMARY_CHARS
            &&& s.truncated ==> t == s && summary_appended(s, delta).1.len() == 0
        }),
{
}

/// What was shown of a summary to its end is not shown again.
pub proof fn law_nothing_is_shown_twice(s: SummaryView)
    requires
        s.well_formed(),
    ensures
        summary_drained(summary_drained(s, true).0, true).1 == Seq::<ItemView>::empty(),
{
    lemma_drains_all(s.text, s.emitted);
    let end = s.text.len() as int;
    reveal_strlit("\n\n");
    lemma_find_from(s.text, "\n\n"@, end);
}

proof fn lemma_drains_all(text: Seq<char>, from: int)
    requires
        0 <= from <= text.len(),
    ensures
        drained(text, from, true).1 == text.len(),
    decreases text.len() - from,
{
    lemma_find_from(text, "\n\n"@, from);
    reveal_strlit("\n\n");
    match find_from(text, "\n\n"@, from) {
        Some(end) => {
            lemma_drains_all(text, end + 2);
        },
        None => {},
    }
}

/// Puts the items of a list behind those of another.
pub fn append_items(list: &mut Vec<StreamItem>, more: Vec<StreamItem>)
    ensures
        seen_all(final(list)@) == seen_all(old(list)@) + seen_all(more@),
{
    let ghost was = list@;
    let ghost added = more@;
    let mut rest = more;
    list.append(&mut rest);
    assert(seen_all(list@) =~= seen_all(was) + seen_all(added));
}

/// Puts one item behind a list.
pub fn push_stream_item(list: &mut Vec<StreamItem>, item: StreamItem)
    ensures
        seen_all(final(list)@) == seen_all(old(list)@).push(item@),
{
    proof {
        lemma_seen_all_push(list@, item);
    }
    list.push(item);
}

impl ReasoningSummary {
    pub fn empty() -> (r: ReasoningSummary)
        ensures
            r@ == no_summary(),
    {
        let r = ReasoningSummary { text: Vec::new(), emitted: 0, truncated: false };
        assert(r@.text =~= Seq::empty());
        r
    }

    /// Shows the paragraphs that have not been shown.
    pub fn drain(&mut self, complete: bool) -> (r: Vec<StreamItem>)
        requires
            old(self)@.well_formed(),
        ensures
            (final(self)@, seen_all(r@)) == summary_drained(old(self)@, complete),
            final(self)@.well_formed(),
    {
        let mut items: Vec<StreamItem> = Vec::new();
        let gap = chars_of("\n\n");
        let ghost start = self.emitted as int;
        proof {
            reveal_strlit("\n\n");
            assert(seen_all(items@) =~= Seq::empty());
            assert(Seq::<ItemView>::empty() + drained(self.text@, start, complete).0 =~= drained(
                self.text@,
                start,
                complete,
            ).0);
        }
        loop
            invariant
                gap@ == "\n\n"@,
                gap@.len() == 2,
                self.text@ == old(self)@.text,
                self.truncated == old(self)@.truncated,
                self.emitted <= self.text@.len(),
                start == old(self)@.emitted,
                drained(self.text@, start, complete).0 == seen_all(items@) + drained(
                    self.text@,
                    self.emitted as int,
                    complete,
                ).0,
                drained(self.text@, start, complete).1 == drained(
                    self.text@,
                    self.emitted as int,
                    complete,
                ).1,
            ensures
                self.text@ == old(self)@.text,
                self.truncated == old(self)@.truncated,
                self.emitted <= self.text@.len(),
                seen_all(items@) == drained(self.text@, start, complete).0,
                self.emitted == drained(self.text@, start, complete).1,
            decreases self.text@.len() - self.emitted,
        {
            let from: usize = self.emitted;
            let length: usize = self.text.len();
            proof {
                lemma_find_from(self.text@, "\n\n"@, from as int);
                assert(find_from(self.text@, "\n\n"@, from as int) matches Some(e) ==> e + 2
                    <= length);
            }
            let ghost was = seen_all(items@);
            let (end, next): (usize, usize) = match find_chars(&self.text, &gap, from) {
                Some(end) => (end, end + 2),
                None => if complete && from < self.text.len() {
                    (self.text.len(), self.text.len())
                } else {
                    assert(seen_all(items@) + Seq::<ItemView>::empty() =~= seen_all(items@));
                    break ;
                },
            };
            let piece = string_of(&self.text, from, end);
            let list = words(piece.as_str());
            let line = join(&list, " ");
            self.emitted = next;
            if chars_of(line.as_str()).len() > 0 {
                push_stream_item(&mut items, StreamItem::Reasoning(line));
            }
            proof {
                let para = paragraph(self.text@.subrange(from as int, end as int));
                assert(seen_all(items@) =~= was + para);
                let rest = drained(self.text@, next as int, complete);
                if next == end {
                    lemma_find_from(self.text@, "\n\n"@, next as int);
                    assert(rest.0 =~= Seq::empty());
                }
                assert(was + (para + rest.0) =~= was + para + rest.0);
                assert(was + para =~= was + para + Seq::empty());
            }
        }
        proof {
            lemma_drained_bounds(self.text@, start, complete);
        }
        items
    }

    /// Takes in more of the summary.
    pub fn append(&mut self, delta: &str) -> (r: Vec<StreamItem>)
        requires
            old(self)@.well_formed(),
        ensures
            (final(self)@, seen_all(r@)) == summary_appended(old(self)@, delta@),
            final(self)@.well_formed(),
    {
        if self.truncated {
            let none: Vec<StreamItem> = Vec::new();
            assert(seen_all(none@) =~= Seq::empty());
            return none;
        }
        let more = chars_of(delta);
        let room: usize = if self.text.len() < MAX_REASONING_SUMMARY_CHARS {
            MAX_REASONING_SUMMARY_CHARS - self.text.len()
        } else {
            0
        };
        let cut = more.len() > room || self.text.len() > MAX_REASONING_SUMMARY_CHARS;
        let count: usize = if more.len() > room {
            room
        } else {
            more.len()
        };
        let ghost was = self.text@;
        let mut i: usize = 0;
        assert(was + delta@.take(0) =~= was);
        while i < count
            invariant
                i <= count <= more@.len(),
                more@ == delta@,
                self.text@ == was + delta@.take(i as int),
                self.emitted == old(self).emitted,
                self.truncated == old(self).truncated,
            decreases count - i,
        {
            self.text.push(more[i]);
            i += 1;
            assert(self.text@ =~= was + delta@.take(i as int));
        }
        if cut {
            self.text.push('…');
            self.truncated = true;
        } else {
            assert(delta@.take(i as int) =~= delta@);
        }
        self.drain(cut)
    }

    /// Takes in the whole of the summary, which repeats what has come of it.
    pub fn complete(&mut self, text: &str) -> (r: Vec<StreamItem>)
        requires
            old(self)@.well_formed(),
        ensures
            (final(self)@, seen_all(r@)) == summary_completed(old(self)@, text@),
            final(self)@.well_formed(),
    {
        let all = chars_of(text);
        let same = crate::text::is_at(&all, &self.text, 0);
        let mut items: Vec<StreamItem> = if same {
            let rest = string_of(&all, self.text.len(), all.len());
            self.append(rest.as_str())
        } else {
            let none: Vec<StreamItem> = Vec::new();
            assert(seen_all(none@) =~= Seq::empty());
            none
        };
        let more = self.drain(true);
        append_items(&mut items, more);
        items
    }
}

/// A summary of one part of one item.
#[derive(Debug, Clone)]
pub struct SummaryEntry {
    pub id: String,
    pub index: u64,
    pub summary: ReasoningSummary,
}

pub struct EntryView {
    pub id: Seq<char>,
    pub index: u64,
    pub summary: SummaryView,
}

impl View for SummaryEntry {
    type V = EntryView;

    open spec fn view(&self) -> EntryView {
        EntryView { id: self.id@, index: self.index, summary: self.summary@ }
    }
}

/// The events of a turn as they are shown: the summaries in the order of their items and
/// parts, and the commands that were shown when they started.
#[derive(Debug, Clone)]
pub struct CodexStream {
    pub summaries: Vec<SummaryEntry>,
    pub started_commands: Vec<String>,
}

pub struct ShownView {
    pub summaries: Seq<EntryView>,
    pub started: Seq<Seq<char>>,
}

impl View for CodexStream {
    type V = ShownView;

    open spec fn view(&self) -> ShownView {
        ShownView {
            summaries: seen_all(self.summaries@),
            started: texts(self.started_commands@),
        }
    }
}

/// Every summary is well-formed.
pub open spec fn all_well_formed(entries: Seq<EntryView>) -> bool {
    forall|i: int| 0 <= i < entries.len() ==> (#[trigger] entries[i]).summary.well_formed()
}

/// Whether the part `index` of the item `id` comes after an entry.
pub open spec fn entry_before(e: EntryView, id: Seq<char>, index: u64) -> bool {
    before(e.id, id) || (e.id == id && e.index < index)
}

/// Whether summaries stand in the order of their items and parts, none twice.
pub open spec fn in_order(entries: Seq<EntryView>) -> bool {
    forall|i: int, j: int|
        0 <= i < j < entries.len() ==> entry_before(
            #[trigger] entries[i],
            (#[trigger] entries[j]).id,
            entries[j].index,
        )
}

/// Where a part stands, or would.
pub open spec fn place(entries: Seq<EntryView>, id: Seq<char>, index: u64, from: int) -> int
    decreases entries.len() - from,
{
    if 0 <= from < entries.len() && entry_before(entries[from], id, index) {
        place(entries, id, index, from + 1)
    } else {
        from
    }
}

/// Whether a part has an entry.
pub open spec fn present(entries: Seq<EntryView>, id: Seq<char>, index: u64) -> bool {
    let k = place(entries, id, index, 0);
    k < entries.len() && entries[k].id == id && entries[k].index == index
}

/// What has come of a part.
pub open spec fn part(entries: Seq<EntryView>, id: Seq<char>, index: u64) -> SummaryView {
    if present(entries, id, index) {
        entries[place(entries, id, index, 0)].summary
    } else {
        no_summary()
    }
}

/// The summaries with that of a part replaced.
pub open spec fn with_part(
    entries: Seq<EntryView>,
    id: Seq<char>,
    index: u64,
    summary: SummaryView,
) -> Seq<EntryView> {
    let k = place(entries, id, index, 0);
    let entry = EntryView { id, index, summary };
    if present(entries, id, index) {
        entries.update(k, entry)
    } else {
        entries.insert(k, entry)
    }
}

proof fn lemma_place(entries: Seq<EntryView>, id: Seq<char>, index: u64, from: int)
    requires
        0 <= from <= entries.len(),
    ensures
        from <= place(entries, id, index, from) <= entries.len(),
        forall|i: int|
            from <= i < place(entries, id, index, from) ==> entry_before(
                #[trigger] entries[i],
                id,
                index,
            ),
        place(entries, id, index, from) < entries.len() ==> !entry_before(
            entries[place(entries, id, index, from)],
            id,
            index,
        ),
    decreases entries.len() - from,
{
    if from < entries.len() && entry_before(entries[from], id, index) {
        lemma_place(entries, id, index, from + 1);
    }
}

/// Summaries that stand in order still do once one of them is replaced or put in.
pub proof fn law_summaries_stay_in_order(
    entries: Seq<EntryView>,
    id: Seq<char>,
    index: u64,
    summary: SummaryView,
)
    requires
        in_order(entries),
    ensures
        in_order(with_part(entries, id, index, summary)),
{
    let k = place(entries, id, index, 0);
    lemma_place(entries, id, index, 0);
    let t = with_part(entries, id, index, summary);
    if present(entries, id, index) {
        assert forall|i: int, j: int| 0 <= i < j < t.len() implies entry_before(
            #[trigger] t[i],
            (#[trigger] t[j]).id,
            t[j].index,
        ) by {
            assert(entry_before(entries[i], entries[j].id, entries[j].index));
        }
    } else {
        assert forall|i: int, j: int| 0 <= i < j < t.len() implies entry_before(
            #[trigger] t[i],
            (#[trigger] t[j]).id,
            t[j].index,
        ) by {
            if j == k {
                assert(t[i] == entries[i]);
            } else if i == k {
                let e = entries[j - 1];
                assert(t[j] == e);
                lemma_before_total(entries[k].id, id);
                if j - 1 > k {
                    assert(entry_before(entries[k], e.id, e.index));
                    if before(id, entries[k].id) && before(entries[k].id, e.id) {
                        lemma_before_transitive(id, entries[k].id, e.id);
                    }
                }
            } else {
                let a = if i < k {
                    i
                } else {
                    i - 1
                };
                let b = if j < k {
                    j
                } else {
                    j - 1
                };
                assert(t[i] == entries[a]);
                assert(t[j] == entries[b]);
                assert(entry_before(entries[a], entries[b].id, entries[b].index));
            }
        }
    }
}

/// The summaries of an item, or all, shown to their end.
pub open spec fn finished(entries: Seq<EntryView>, wanted: Option<Seq<char>>) -> (
    Seq<EntryView>,
    Seq<ItemView>,
)
    decreases entries.len(),
{
    if entries.len() == 0 {
        (Seq::empty(), Seq::empty())
    } else {
        let front = finished(entries.drop_last(), wanted);
        let last = entries.last();
        if wanted is None || wanted->0 == last.id {
            let shown = summary_drained(last.summary, true);
            (front.0.push(EntryView { summary: shown.0, ..last }), front.1 + shown.1)
        } else {
            (front.0.push(last), front.1)
        }
    }
}

/// The kind of an event.
pub open spec fn event_kind(event: Json) -> Seq<char> {
    match text_in(member(event, "method"@)) {
        Some(method) => method,
        None => "event"@,
    }
}

/// A member of what an event is about.
pub open spec fn param(event: Json, key: Seq<char>) -> Option<Json> {
    member_of(member(event, "params"@), key)
}

/// What comes of an event before it is shown itself: whether that is all, the summaries,
/// and what is shown.
pub open spec fn opened(s: ShownView, event: Json, filter: StreamFilter) -> (
    bool,
    ShownView,
    Seq<ItemView>,
) {
    let kind = event_kind(event);
    let id = text_in(param(event, "itemId"@));
    let index = unsigned_in(param(event, "summaryIndex"@));
    let delta = text_in(param(event, "delta"@));
    let all = finished(s.summaries, None);
    if filter == StreamFilter::Activity {
        (false, s, Seq::empty())
    } else if kind == "item/reasoning/summaryTextDelta"@ {
        if id is Some && index is Some && delta is Some {
            let added = summary_appended(part(s.summaries, id->0, index->0), delta->0);
            (
                true,
                ShownView {
                    summaries: with_part(s.summaries, id->0, index->0, added.0),
                    ..s
                },
                added.1,
            )
        } else {
            (false, s, Seq::empty())
        }
    } else if kind == "item/reasoning/summaryPartAdded"@ {
        if id is Some {
            let ended = finished(s.summaries, id);
            (true, ShownView { summaries: ended.0, ..s }, ended.1)
        } else {
            (false, s, Seq::empty())
        }
    } else if kind == "item/started"@ || kind == "item/completed"@ {
        if text_in(member_of(param(event, "item"@), "type"@)) != Some("reasoning"@) {
            (false, ShownView { summaries: all.0, ..s }, all.1)
        } else {
            (false, s, Seq::empty())
        }
    } else if kind == "turn/completed"@ {
        (false, ShownView { summaries: all.0, ..s }, all.1)
    } else {
        (false, s, Seq::empty())
    }
}

/// A command on one line, cut where it is long.
pub open spec fn one_line_of(value: Seq<char>) -> Seq<char> {
    let line = squeezed(value);
    if line.len() <= LINE_LIMIT {
        line
    } else {
        line.take(LINE_LIMIT - 1).push('…')
    }
}

/// What is shown of a command at its end.
pub open spec fn command_ended(item: Json, filter: StreamFilter) -> Seq<ItemView> {
    let exit = signed_in(member(item, "exitCode"@));
    let status = text_in(member(item, "status"@));
    let output = text_in(member(item, "aggregatedOutput"@));
    (if exit is Some && exit->0 != 0 {
        seq![ItemView::Tool("Shell exited with code "@ + signed_decimal(exit->0 as int))]
    } else if status == Some("failed"@) || status == Some("declined"@) || status == Some(
        "interrupted"@,
    ) {
        seq![ItemView::Tool("Shell "@ + status->0)]
    } else {
        Seq::empty()
    }) + if filter == StreamFilter::Full && output is Some && trimmed(output->0).len() > 0 {
        seq![ItemView::ToolResult(output->0)]
    } else {
        Seq::empty()
    }
}

/// What is shown of a command: its line, unless that was shown when it started, and at its
/// end how it went.
pub open spec fn command_shown(s: ShownView, item: Json, completed: bool, filter: StreamFilter) -> (
    ShownView,
    Seq<ItemView>,
) {
    let id = text_in(member(item, "id"@));
    let known = id is Some && s.started.contains(id->0);
    let line = match text_in(member(item, "command"@)) {
        Some(command) => command,
        None => "command"@,
    };
    (
        if !known && !completed && id is Some {
            ShownView { started: s.started.push(id->0), ..s }
        } else {
            s
        },
        (if known {
            Seq::empty()
        } else {
            seq![ItemView::Tool("Shell: "@ + one_line_of(line))]
        }) + if completed {
            command_ended(item, filter)
        } else {
            Seq::empty()
        },
    )
}

/// The first parts of a summary that came whole, taken in.
pub open spec fn parts_completed(entries: Seq<EntryView>, id: Seq<char>, parts: Seq<Json>) -> (
    Seq<EntryView>,
    Seq<ItemView>,
)
    decreases parts.len(),
{
    if parts.len() == 0 {
        (entries, Seq::empty())
    } else {
        let front = parts_completed(entries, id, parts.drop_last());
        let index = (parts.len() - 1) as u64;
        match text_in(Some(parts.last())) {
            Some(text) => {
                let done = summary_completed(part(front.0, id, index), text);
                (with_part(front.0, id, index, done.0), front.1 + done.1)
            },
            None => front,
        }
    }
}

/// What is shown of reasoning that is complete.
pub open spec fn reasoning_shown(s: ShownView, item: Json) -> (ShownView, Seq<ItemView>) {
    match text_in(member(item, "id"@)) {
        None => (s, Seq::empty()),
        Some(id) => {
            let taken = match items_in(member(item, "summary"@)) {
                Some(parts) => parts_completed(s.summaries, id, parts),
                None => (s.summaries, Seq::empty()),
            };
            let ended = finished(taken.0, Some(id));
            (ShownView { summaries: ended.0, ..s }, taken.1 + ended.1)
        },
    }
}

/// What is shown of an item.
pub open spec fn item_shown(s: ShownView, item: Json, completed: bool, filter: StreamFilter) -> (
    ShownView,
    Seq<ItemView>,
) {
    let none = (s, Seq::<ItemView>::empty());
    match text_in(member(item, "type"@)) {
        None => none,
        Some(kind) => if kind == "commandExecution"@ {
            command_shown(s, item, completed, filter)
        } else if kind == "reasoning"@ {
            if completed && filter != StreamFilter::Activity {
                reasoning_shown(s, item)
            } else {
                none
            }
        } else if !completed {
            none
        } else if kind == "agentMessage"@ {
            match text_in(member(item, "text"@)) {
                Some(text) => (s, seq![ItemView::Codex(text)]),
                None => none,
            }
        } else if kind == "fileChange"@ {
            (s, seq![ItemView::Tool("Applied file changes"@)])
        } else if filter == StreamFilter::Full {
            (s, seq![ItemView::Lifecycle("Codex item: "@ + kind)])
        } else {
            none
        },
    }
}

/// What is shown of an event itself.
pub open spec fn body_shown(s: ShownView, event: Json, filter: StreamFilter) -> (
    ShownView,
    Seq<ItemView>,
) {
    let kind = event_kind(event);
    if kind == "item/started"@ || kind == "item/completed"@ {
        match param(event, "item"@) {
            Some(item) => item_shown(s, item, kind == "item/completed"@, filter),
            None => (s, Seq::empty()),
        }
    } else if kind == "thread/compacted"@ {
        (s, seq![ItemView::Lifecycle("Codex context compacted"@)])
    } else if kind == "turn/completed"@ && filter == StreamFilter::Full {
        (
            s,
            seq![
                ItemView::Lifecycle(
                    "Codex turn: "@ + match text_in(member_of(param(event, "turn"@), "status"@)) {
                        Some(status) => status,
                        None => "unknown"@,
                    },
                ),
            ],
        )
    } else {
        (s, Seq::empty())
    }
}

/// What is shown of an event, and what is remembered of it.
pub open spec fn event_shown(s: ShownView, event: Json, filter: StreamFilter) -> (
    ShownView,
    Seq<ItemView>,
) {
    if filter == StreamFilter::Raw {
        (s, seq![ItemView::Raw(encoded_json(event@))])
    } else {
        let first = opened(s, event, filter);
        if first.0 {
            (first.1, first.2)
        } else {
            let second = body_shown(first.1, event, filter);
            (second.0, first.2 + second.1)
        }
    }
}

/// No reasoning is shown where only activity is asked for, and none is remembered.
pub proof fn law_reasoning_is_opt_in(s: ShownView, event: Json)
    ensures
        event_shown(s, event, StreamFilter::Activity).0.summaries == s.summaries,
        forall|i: int|
            0 <= i < event_shown(s, event, StreamFilter::Activity).1.len() ==> !(
            #[trigger] event_shown(s, event, StreamFilter::Activity).1[i] is Reasoning),
{
}

pub fn one_line(value: &str) -> (r: String)
    ensures
        r@ == one_line_of(value@),
{
    let list = words(value);
    let line = join(&list, " ");
    let v = chars_of(line.as_str());
    if v.len() <= LINE_LIMIT {
        return line;
    }
    let mut head = string_of(&v, 0, LINE_LIMIT - 1);
    assert(head@ =~= line@.take(LINE_LIMIT - 1));
    head.push('…');
    head
}

fn is_word(value: Option<&Json>, word: &str) -> (r: bool)
    ensures
        r == (text_in(target(value)) == Some(word@)),
{
    match as_text(value) {
        Some(text) => equal(text, word),
        None => false,
    }
}

fn no_items() -> (r: Vec<StreamItem>)
    ensures
        seen_all(r@) == Seq::<ItemView>::empty(),
{
    let none: Vec<StreamItem> = Vec::new();
    assert(seen_all(none@) =~= Seq::empty());
    none
}

fn one_item(item: StreamItem) -> (r: Vec<StreamItem>)
    ensures
        seen_all(r@) == seq![item@],
{
    let mut list: Vec<StreamItem> = Vec::new();
    list.push(item);
    assert(seen_all(list@) =~= seq![item@]);
    list
}

impl CodexStream {
    pub fn new() -> (r: CodexStream)
        ensures
            r@ == (ShownView { summaries: Seq::empty(), started: Seq::empty() }),
            all_well_formed(r@.summaries),
    {
        let r = CodexStream { summaries: Vec::new(), started_commands: Vec::new() };
        assert(r@.summaries =~= Seq::empty());
        assert(r@.started =~= Seq::empty());
        r
    }

    fn find(&self, id: &str, index: u64) -> (r: (usize, bool))
        ensures
            r.0 == place(self@.summaries, id@, index, 0),
            r.0 <= self.summaries@.len(),
            r.1 == present(self@.summaries, id@, index),
    {
        let ghost entries = self@.summaries;
        let mut i: usize = 0;
        while i < self.summaries.len() && (is_before(self.summaries[i].id.as_str(), id) || (equal(
            self.summaries[i].id.as_str(),
            id,
        ) && self.summaries[i].index < index))
            invariant
                i <= self.summaries@.len(),
                entries == self@.summaries,
                place(entries, id@, index, 0) == place(entries, id@, index, i as int),
            decreases self.summaries@.len() - i,
        {
            assert(entries[i as int] == self.summaries@[i as int]@);
            i += 1;
        }
        if i < self.summaries.len() {
            assert(entries[i as int] == self.summaries@[i as int]@);
            (
                i,
                equal(self.summaries[i].id.as_str(), id) && self.summaries[i].index == index,
            )
        } else {
            (i, false)
        }
    }

    /// Takes the summary of a part out, to be put back.
    fn take_part(&self, id: &str, index: u64) -> (r: ReasoningSummary)
        requires
            all_well_formed(self@.summaries),
        ensures
            r@ == part(self@.summaries, id@, index),
            r@.well_formed(),
    {
        let (k, there) = self.find(id, index);
        if there {
            let found = &self.summaries[k].summary;
            assert(self@.summaries[k as int] == self.summaries@[k as int]@);
            let mut text: Vec<char> = Vec::new();
            let mut i: usize = 0;
            while i < found.text.len()
                invariant
                    i <= found.text@.len(),
                    text@ == found.text@.take(i as int),
                decreases found.text@.len() - i,
            {
                text.push(found.text[i]);
                i += 1;
                assert(text@ =~= found.text@.take(i as int));
            }
            assert(text@ =~= found.text@);
            ReasoningSummary { text, emitted: found.emitted, truncated: found.truncated }
        } else {
            ReasoningSummary::empty()
        }
    }

    fn put_part(&mut self, id: &str, index: u64, summary: ReasoningSummary)
        requires
            all_well_formed(old(self)@.summaries),
            summary@.well_formed(),
        ensures
            final(self)@ == (ShownView {
                summaries: with_part(old(self)@.summaries, id@, index, summary@),
                ..old(self)@
            }),
            all_well_formed(final(self)@.summaries),
    {
        let (k, there) = self.find(id, index);
        let ghost was = self.summaries@;
        let entry = SummaryEntry { id: id.to_owned(), index, summary };
        if there {
            self.summaries.set(k, entry);
            assert(seen_all(self.summaries@) =~= seen_all(was).update(k as int, entry@));
        } else {
            self.summaries.insert(k, entry);
            assert(seen_all(self.summaries@) =~= seen_all(was).insert(k as int, entry@));
        }
    }

    /// Shows the summaries of an item, or all, to their end.
    pub fn finish_summaries(&mut self, item_id: Option<&str>) -> (r: Vec<StreamItem>)
        requires
            all_well_formed(old(self)@.summaries),
        ensures
            (final(self)@.summaries, seen_all(r@)) == finished(
                old(self)@.summaries,
                str_option(item_id),
            ),
            final(self)@.started == old(self)@.started,
            all_well_formed(final(self)@.summaries),
    {
        let mut items = no_items();
        let mut kept: Vec<SummaryEntry> = Vec::new();
        let mut rest: Vec<SummaryEntry> = Vec::new();
        let ghost all = self@.summaries;
        std::mem::swap(&mut rest, &mut self.summaries);
        let total: usize = rest.len();
        let mut n: usize = 0;
        assert(all.take(0) =~= Seq::empty());
        assert(seen_all(kept@) =~= Seq::empty());
        assert(seen_all(rest@) =~= all.skip(0));
        while n < total
            invariant
                n <= total,
                total == all.len(),
                all_well_formed(all),
                seen_all(rest@) == all.skip(n as int),
                (seen_all(kept@), seen_all(items@)) == finished(
                    all.take(n as int),
                    str_option(item_id),
                ),
                all_well_formed(seen_all(kept@)),
                self.started_commands == old(self).started_commands,
            decreases total - n,
        {
            assert(rest@.len() == seen_all(rest@).len());
            let ghost before_removal = rest@;
            let mut entry = rest.remove(0);
            proof {
                let upto = all.take(n + 1);
                assert(upto.drop_last() =~= all.take(n as int));
                assert(seen_all(before_removal)[0] == all[n as int]);
                assert(entry@ == all[n as int]);
                assert(upto.last() == entry@);
                assert forall|i: int| 0 <= i < rest@.len() implies #[trigger] seen_all(rest@)[i]
                    == all.skip(n + 1)[i] by {
                    assert(rest@[i] == before_removal[i + 1]);
                    assert(seen_all(before_removal)[i + 1] == all.skip(n as int)[i + 1]);
                }
                assert(rest@.len() == before_removal.len() - 1);
                assert(seen_all(rest@) =~= all.skip(n + 1));
            }
            let wanted = match item_id {
                Some(id) => equal(entry.id.as_str(), id),
                None => true,
            };
            let ghost start = entry@;
            if wanted {
                let mut summary = entry.summary;
                let shown = summary.drain(true);
                append_items(&mut items, shown);
                entry = SummaryEntry { id: entry.id, index: entry.index, summary };
            }
            proof {
                lemma_seen_all_push(kept@, entry);
            }
            kept.push(entry);
            n += 1;
        }
        assert(all.take(n as int) =~= all);
        self.summaries = kept;
        items
    }

    fn show_command(&mut self, item: &Json, completed: bool, filter: StreamFilter) -> (r: Vec<
        StreamItem,
    >)
        ensures
            (final(self)@, seen_all(r@)) == command_shown(old(self)@, *item, completed, filter),
    {
        let mut items = no_items();
        let id = as_text(item.get("id"));
        let known = match id {
            Some(id) => holds(&self.started_commands, id),
            None => false,
        };
        if !known {
            let command = match as_text(item.get("command")) {
                Some(command) => command,
                None => "command",
            };
            let line = one_line(command);
            push_stream_item(&mut items, StreamItem::Tool(cat2("Shell: ", line.as_str())));
            if !completed {
                if let Some(id) = id {
                    push_text(&mut self.started_commands, id);
                }
            }
        }
        let ghost head = seen_all(items@);
        if completed {
            let exit = as_signed(item.get("exitCode"));
            let status = as_text(item.get("status"));
            let bad = match exit {
                Some(code) => code != 0,
                None => false,
            };
            let ended = match status {
                Some(word) => equal(word, "failed") || equal(word, "declined") || equal(
                    word,
                    "interrupted",
                ),
                None => false,
            };
            if bad {
                if let Some(code) = exit {
                    let text = signed_text(code);
                    push_stream_item(
                        &mut items,
                        StreamItem::Tool(cat2("Shell exited with code ", text.as_str())),
                    );
                }
            } else if ended {
                if let Some(word) = status {
                    push_stream_item(&mut items, StreamItem::Tool(cat2("Shell ", word)));
                }
            }
            if filter == StreamFilter::Full {
                if let Some(output) = as_text(item.get("aggregatedOutput")) {
                    let bare = trim(output);
                    if chars_of(bare.as_str()).len() > 0 {
                        push_stream_item(&mut items, StreamItem::ToolResult(output.to_owned()));
                    }
                }
            }
            assert(seen_all(items@) =~= head + command_ended(*item, filter));
        } else {
            assert(head =~= head + Seq::empty());
        }
        items
    }

    fn show_reasoning(&mut self, item: &Json) -> (r: Vec<StreamItem>)
        requires
            all_well_formed(old(self)@.summaries),
        ensures
            (final(self)@, seen_all(r@)) == reasoning_shown(old(self)@, *item),
            all_well_formed(final(self)@.summaries),
    {
        let mut items = no_items();
        let id = match as_text(item.get("id")) {
            Some(id) => id,
            None => {
                return items;
            },
        };
        if let Some(parts) = as_items(item.get("summary")) {
            let mut i: usize = 0;
            assert(parts@.take(0) =~= Seq::empty());
            while i < parts.len()
                invariant
                    i <= parts@.len(),
                    (self@.summaries, seen_all(items@)) == parts_completed(
                        old(self)@.summaries,
                        id@,
                        parts@.take(i as int),
                    ),
                    self@.started == old(self)@.started,
                    all_well_formed(self@.summaries),
                decreases parts@.len() - i,
            {
                proof {
                    let upto = parts@.take(i + 1);
                    assert(upto.drop_last() =~= parts@.take(i as int));
                    assert(upto.last() == parts@[i as int]);
                }
                if let Some(text) = as_text(Some(&parts[i])) {
                    let mut summary = self.take_part(id, i as u64);
                    let shown = summary.complete(text);
                    self.put_part(id, i as u64, summary);
                    append_items(&mut items, shown);
                }
                i += 1;
            }
            assert(parts@.take(i as int) =~= parts@);
        }
        let more = self.finish_summaries(Some(id));
        append_items(&mut items, more);
        items
    }

    fn show_item(&mut self, item: &Json, completed: bool, filter: StreamFilter) -> (r: Vec<
        StreamItem,
    >)
        requires
            all_well_formed(old(self)@.summaries),
        ensures
            (final(self)@, seen_all(r@)) == item_shown(old(self)@, *item, completed, filter),
            all_well_formed(final(self)@.summaries),
    {
        let kind = match as_text(item.get("type")) {
            Some(kind) => kind,
            None => {
                return no_items();
            },
        };
        if equal(kind, "commandExecution") {
            return self.show_command(item, completed, filter);
        }
        if equal(kind, "reasoning") {
            if completed && filter != StreamFilter::Activity {
                return self.show_reasoning(item);
            }
            return no_items();
        }
        if !completed {
            return no_items();
        }
        if equal(kind, "agentMessage") {
            return match as_text(item.get("text")) {
                Some(text) => one_item(StreamItem::Codex(text.to_owned())),
                None => no_items(),
            };
        }
        if equal(kind, "fileChange") {
            return one_item(StreamItem::Tool("Applied file changes".to_owned()));
        }
        if filter == StreamFilter::Full {
            return one_item(StreamItem::Lifecycle(cat2("Codex item: ", kind)));
        }
        no_items()
    }

    fn open_event(&mut self, event: &Json, kind: &str, filter: StreamFilter) -> (r: (
        bool,
        Vec<StreamItem>,
    ))
        requires
            all_well_formed(old(self)@.summaries),
            kind@ == event_kind(*event),
        ensures
            (r.0, final(self)@, seen_all(r.1@)) == opened(old(self)@, *event, filter),
            all_well_formed(final(self)@.summaries),
    {
        if filter == StreamFilter::Activity {
            return (false, no_items());
        }
        let params = event.get("params");
        let id = as_text(get_in(params, "itemId"));
        if equal(kind, "item/reasoning/summaryTextDelta") {
            let index = as_unsigned(get_in(params, "summaryIndex"));
            let delta = as_text(get_in(params, "delta"));
            if let Some(id) = id {
                if let Some(index) = index {
                    if let Some(delta) = delta {
                        let mut summary = self.take_part(id, index);
                        let shown = summary.append(delta);
                        self.put_part(id, index, summary);
                        return (true, shown);
                    }
                }
            }
            return (false, no_items());
        }
        if equal(kind, "item/reasoning/summaryPartAdded") {
            if let Some(id) = id {
                return (true, self.finish_summaries(Some(id)));
            }
            return (false, no_items());
        }
        if equal(kind, "item/started") || equal(kind, "item/completed") {
            if !is_word(get_in(get_in(params, "item"), "type"), "reasoning") {
                return (false, self.finish_summaries(None));
            }
            return (false, no_items());
        }
        if equal(kind, "turn/completed") {
            return (false, self.finish_summaries(None));
        }
        (false, no_items())
    }

    fn show_body(&mut self, event: &Json, kind: &str, filter: StreamFilter) -> (r: Vec<StreamItem>)
        requires
            all_well_formed(old(self)@.summaries),
            kind@ == event_kind(*event),
        ensures
            (final(self)@, seen_all(r@)) == body_shown(old(self)@, *event, filter),
            all_well_formed(final(self)@.summaries),
    {
        let params = event.get("params");
        let completed = equal(kind, "item/completed");
        if equal(kind, "item/started") || completed {
            return match get_in(params, "item") {
                Some(item) => self.show_item(item, completed, filter),
                None => no_items(),
            };
        }
        if equal(kind, "thread/compacted") {
            return one_item(StreamItem::Lifecycle("Codex context compacted".to_owned()));
        }
        if equal(kind, "turn/completed") && filter == StreamFilter::Full {
            let status = match as_text(get_in(get_in(params, "turn"), "status")) {
                Some(status) => status,
                None => "unknown",
            };
            return one_item(StreamItem::Lifecycle(cat2("Codex turn: ", status)));
        }
        no_items()
    }

    /// Takes an event in, and gives what is shown of it.
    pub fn filter_event(&mut self, event: &Json, filter: StreamFilter) -> (r: Vec<StreamItem>)
        requires
            all_well_formed(old(self)@.summaries),
        ensures
            (final(self)@, seen_all(r@)) == event_shown(old(self)@, *event, filter),
            all_well_formed(final(self)@.summaries),
    {
        if filter == StreamFilter::Raw {
            return one_item(StreamItem::Raw(encode_json(event)));
        }
        let kind = match as_text(event.get("method")) {
            Some(kind) => kind,
            None => "event",
        };
        let (all, mut items) = self.open_event(event, kind, filter);
        if all {
            return items;
        }
        let more = self.show_body(event, kind, filter);
        append_items(&mut items, more);
        items
    }
}

/// A command is shown on one line of at most 240 characters: as it is where it fits, and cut
/// with a sign that it was where it does not.
pub proof fn law_lines_are_cut_to_length(value: Seq<char>)
    ensures
        one_line_of(value).len() <= 240,
        squeezed(value).len() <= 240 ==> one_line_of(value) == squeezed(value),
        squeezed(value).len() > 240 ==> one_line_of(value).len() == 240 && one_line_of(value).last()
            == '…' && one_line_of(value).drop_last().is_prefix_of(squeezed(value)),
        squeezed(value) == joined(words_of(value), " "@),
{
    if squeezed(value).len() > 240 {
        let line = one_line_of(value);
        assert(line.drop_last() =~= squeezed(value).subrange(0, 239));
    }
}

/// A paragraph is shown once an empty line ends it, and the last one once the text is
/// complete. What was shown is not looked at again.
pub proof fn law_paragraphs_are_shown_when_they_end(text: Seq<char>, from: int, complete: bool)
    requires
        0 <= from <= text.len(),
    ensures
        find_from(text, "\n\n"@, from) is None && !complete ==> drained(text, from, complete) == (
            Seq::<ItemView>::empty(),
            from,
        ),
        find_from(text, "\n\n"@, from) is None && complete ==> drained(text, from, complete).1
            == text.len() && drained(text, from, complete).0 == (if from < text.len() {
            paragraph(text.subrange(from, text.len() as int))
        } else {
            Seq::empty()
        }),
        find_from(text, "\n\n"@, from) matches Some(end) ==> {
            &&& from <= end && end + 2 <= text.len()
            &&& paragraph(text.subrange(from, end)).is_prefix_of(drained(text, from, complete).0)
            &&& drained(text, from, complete).1 == drained(text, end + 2, complete).1
            &&& drained(text, from, complete).1 >= end + 2
        },
        squeezed(text).len() > 0 ==> paragraph(text) == seq![ItemView::Reasoning(squeezed(text))],
        squeezed(text).len() == 0 ==> paragraph(text).len() == 0,
{
    reveal_strlit("\n\n");
    crate::text::lemma_find_from(text, "\n\n"@, from);
    if find_from(text, "\n\n"@, from) is Some {
        let end = find_from(text, "\n\n"@, from)->0;
        let p = paragraph(text.subrange(from, end));
        let r = drained(text, from, complete).0;
        assert(r.subrange(0, p.len() as int) =~= p);
        lemma_drained_grows(text, end + 2, complete);
    }
}

proof fn lemma_drained_grows(text: Seq<char>, from: int, complete: bool)
    requires
        0 <= from <= text.len(),
    ensures
        from <= drained(text, from, complete).1,
    decreases text.len() - from,
{
    if find_from(text, "\n\n"@, from) is Some {
        let end = find_from(text, "\n\n"@, from)->0;
        if 0 <= from <= end && end + 2 <= text.len() {
            lemma_drained_grows(text, end + 2, complete);
        }
    }
}

proof fn lemma_place_is(entries: Seq<EntryView>, id: Seq<char>, index: u64, from: int, k: int)
    requires
        0 <= from <= k <= entries.len(),
        forall|i: int| from <= i < k ==> entry_before(#[trigger] entries[i], id, index),
        k < entries.len() ==> !entry_before(entries[k], id, index),
    ensures
        place(entries, id, index, from) == k,
    decreases k - from,
{
    if from < k {
        assert(entry_before(entries[from], id, index));
        lemma_place_is(entries, id, index, from + 1, k);
    }
}

/// The summary of a part that was put in is the one that is found, and no entry is lost.
pub proof fn law_summaries_are_found_again(
    entries: Seq<EntryView>,
    id: Seq<char>,
    index: u64,
    summary: SummaryView,
)
    ensures
        ({
            let r = with_part(entries, id, index, summary);
            &&& present(r, id, index)
            &&& part(r, id, index) == summary
            &&& r.len() == (if present(entries, id, index) {
                entries.len()
            } else {
                entries.len() + 1
            })
            &&& forall|i: int|
                0 <= i < entries.len() && !((#[trigger] entries[i]).id == id && entries[i].index
                    == index) ==> r.contains(entries[i])
        }),
{
    let k = place(entries, id, index, 0);
    let r = with_part(entries, id, index, summary);
    lemma_place(entries, id, index, 0);
    lemma_not_before_itself(id);
    assert forall|i: int| 0 <= i < k implies entry_before(#[trigger] r[i], id, index) by {
        assert(r[i] == entries[i]);
    }
    assert(r[k] == EntryView { id, index, summary });
    lemma_place_is(r, id, index, 0, k);
    assert forall|i: int|
        0 <= i < entries.len() && !((#[trigger] entries[i]).id == id && entries[i].index
            == index) implies r.contains(entries[i]) by {
        if present(entries, id, index) {
            assert(r[i] == entries[i]);
        } else if i < k {
            assert(r[i] == entries[i]);
        } else {
            assert(r[i + 1] == entries[i]);
        }
    }
}

proof fn lemma_not_before_itself(id: Seq<char>)
    ensures
        !before(id, id),
    decreases id.len(),
{
    if id.len() > 0 {
        lemma_not_before_itself(id.drop_first());
    }
}

/// A raw stream shows every event as it is.
pub proof fn law_raw_streams_show_everything(s: ShownView, event: Json)
    ensures
        event_shown(s, event, StreamFilter::Raw) == (
            s,
            seq![ItemView::Raw(encoded_json(event@))],
        ),
{
}

/// A message that is complete is shown as it is, last of what its event shows.
pub proof fn law_messages_are_shown(s: ShownView, event: Json, filter: StreamFilter)
    requires
        filter != StreamFilter::Raw,
        text_in(member(event, "method"@)) == Some("item/completed"@),
        text_in(member_of(param(event, "item"@), "type"@)) == Some("agentMessage"@),
        text_in(member_of(param(event, "item"@), "text"@)) is Some,
    ensures
        ({
            let r = event_shown(s, event, filter).1;
            &&& r.len() > 0
            &&& r.last() == ItemView::Codex(
                text_in(member_of(param(event, "item"@), "text"@))->0,
            )
        }),
        filter == StreamFilter::Activity ==> event_shown(s, event, filter).1.len() == 1,
{
    reveal_strlit("item/completed");
    reveal_strlit("item/started");
    reveal_strlit("item/reasoning/summaryTextDelta");
    reveal_strlit("item/reasoning/summaryPartAdded");
    reveal_strlit("agentMessage");
    reveal_strlit("commandExecution");
    reveal_strlit("reasoning");
    assert("item/completed"@.len() == 14 && "item/reasoning/summaryTextDelta"@.len() == 31
        && "item/reasoning/summaryPartAdded"@.len() == 31);
    assert("agentMessage"@.len() == 12 && "commandExecution"@.len() == 16 && "reasoning"@.len()
        == 9);
}

/// A command is shown by its line once, when it starts or, where that was not shown, when it
/// ends. A failure is told at its end, by its code or by how it went.
pub proof fn law_commands_are_shown_once(s: ShownView, item: Json, filter: StreamFilter)
    ensures
        text_in(member(item, "id"@)) matches Some(id) ==> {
            &&& !s.started.contains(id) ==> command_shown(s, item, false, filter).0.started
                == s.started.push(id) && command_shown(s, item, false, filter).1.len() == 1
            &&& s.started.contains(id) ==> command_shown(s, item, false, filter) == (
                s,
                Seq::<ItemView>::empty(),
            ) && command_shown(s, item, true, filter).1 == command_ended(item, filter)
            &&& !s.started.contains(id) ==> command_shown(s, item, true, filter).1.len()
                == command_ended(item, filter).len() + 1
            &&& command_shown(s, item, true, filter).0 == s
        },
        text_in(member(item, "command"@)) matches Some(line) ==> (text_in(member(item, "id"@)) is None
            ==> command_shown(s, item, false, filter).1 == seq![
            ItemView::Tool("Shell: "@ + one_line_of(line)),
        ]),
        signed_in(member(item, "exitCode"@)) matches Some(code) ==> (code != 0 ==> command_ended(
            item,
            filter,
        ).len() > 0 && command_ended(item, filter)[0] == ItemView::Tool(
            "Shell exited with code "@ + signed_decimal(code as int),
        )),
        filter != StreamFilter::Full && signed_in(member(item, "exitCode"@)) == Some(0i64)
            && text_in(member(item, "status"@)) is None ==> command_ended(item, filter).len() == 0,
        filter == StreamFilter::Full ==> (text_in(
            member(item, "aggregatedOutput"@),
        ) matches Some(out) ==> (trimmed(out).len() > 0 ==> command_ended(item, filter).len() > 0
            && command_ended(item, filter).last() == ItemView::ToolResult(out))),
{
}

} // verus!
