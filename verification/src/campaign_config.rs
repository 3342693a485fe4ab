//! What a campaign was configured with: the file that records it, the sections of that
//! file, and whether it was edited since.
use crate::failure::{fail, fail_with, failed, outcome, Failure};
use crate::json::{
    as_signed, as_text, indent_json, member, number_json, parse_json, parsed_json, pretty_json,
    push_member, signed_in, text_in, text_items, text_json, texts_json, Json, JsonTree,
};
use crate::markers::{
    count, count_chars, free_of, lemma_counted_once, lemma_middle, lemma_never, lemma_none,
    lemma_once, lemma_part_free, lemma_three_parts, marker, Count, Found,
};
use crate::names::{Harness, HarnessView};
use crate::numeral::{hex_digits, hex_text};
use crate::path::{join_path, joined_path};
use crate::process::{bare_command, CommandSpec, CommandView};
use crate::readback::{
    carriable, kept, law_recording_a_run_is_no_change, lemma_carried, lemma_kept, lemma_recordable,
    list_tree, readable, sound, unmarked, written,
};
use crate::text::{
    cat2, cat3, cat4, cat5, cat7, chars_of, contains, contains_text, equal, find_chars, find_from,
    lemma_find_from, occurs_at, push_text, replace, replaced, replaced_from, str_option, string_of,
    texts, trim, trimmed,
};
use vstd::prelude::*;
use vstd::string::*;

verus! {

pub const FILE_NAME: &'static str = "opsx-build.md";

pub const PRESET_WARNING: &'static str =
    "This preset is managed externally. Changes to it may alter the model or parameters used by this campaign without changing opsx-build.md.";

/// What opens the section with a name.
pub open spec fn start_mark(name: Seq<char>) -> Seq<char> {
    "<!-- opsx-build:"@ + name + " -->"@
}

/// What closes the section with a name.
pub open spec fn end_mark(name: Seq<char>) -> Seq<char> {
    "<!-- /opsx-build:"@ + name + " -->"@
}

/// A section.
pub open spec fn section_text(name: Seq<char>, body: Seq<char>) -> Seq<char> {
    start_mark(name) + "\n"@ + body + "\n"@ + end_mark(name)
}

pub fn section(name: &str, body: &str) -> (r: String)
    ensures
        r@ == section_text(name@, body@),
{
    let opening = cat3("<!-- opsx-build:", name, " -->");
    let closing = cat3("<!-- /opsx-build:", name, " -->");
    cat5(opening.as_str(), "\n", body, "\n", closing.as_str())
}

/// Where the section with a name stands, if it is there, or what is wrong with it.
pub open spec fn span(contents: Seq<char>, name: Seq<char>) -> Result<
    Option<(int, int)>,
    Seq<char>,
> {
    match (count(contents, start_mark(name)), count(contents, end_mark(name))) {
        (Count::Often, _) => Err("duplicate `"@ + name + "` section in opsx-build.md"@),
        (_, Count::Often) => Err("duplicate `"@ + name + "` section in opsx-build.md"@),
        (Count::Never, Count::Never) => Ok(None),
        (Count::Once(start), Count::Once(end)) if start < end => Ok(
            Some((start, end + end_mark(name).len())),
        ),
        _ => Err("incomplete `"@ + name + "` section in opsx-build.md"@),
    }
}

/// Where a section stands, as [`section_range`] gives it.
pub open spec fn span_of(r: Result<Option<(usize, usize)>, Failure>) -> Result<
    Option<(int, int)>,
    Seq<char>,
> {
    match r {
        Ok(Some(p)) => Ok(Some((p.0 as int, p.1 as int))),
        Ok(None) => Ok(None),
        Err(e) => Err(e.message@),
    }
}

/// Finds the section with a name. The positions count characters.
pub fn section_range(contents: &str, name: &str) -> (r: Result<Option<(usize, usize)>, Failure>)
    ensures
        span_of(r) == span(contents@, name@),
        r matches Ok(Some(p)) ==> p.0 <= p.1 <= contents@.len(),
{
    proof {
        reveal_strlit("<!-- opsx-build:");
        reveal_strlit("<!-- /opsx-build:");
    }
    let text = chars_of(contents);
    let length: usize = text.len();
    let opening = cat3("<!-- opsx-build:", name, " -->");
    let closing = cat3("<!-- /opsx-build:", name, " -->");
    let starts = chars_of(opening.as_str());
    let ends = chars_of(closing.as_str());
    let first = count_chars(&text, &starts);
    let last = count_chars(&text, &ends);
    match (first, last) {
        (Found::Often, _) => fail(cat3("duplicate `", name, "` section in opsx-build.md")),
        (_, Found::Often) => fail(cat3("duplicate `", name, "` section in opsx-build.md")),
        (Found::Never, Found::Never) => Ok(None),
        (Found::Once(start), Found::Once(end)) => {
            if start < end {
                Ok(Some((start, end + ends.len())))
            } else {
                fail(cat3("incomplete `", name, "` section in opsx-build.md"))
            }
        },
        _ => fail(cat3("incomplete `", name, "` section in opsx-build.md")),
    }
}

/// A text with another in place of a part of it.
pub open spec fn spliced(s: Seq<char>, range: (int, int), new: Seq<char>) -> Seq<char> {
    s.subrange(0, range.0) + new + s.subrange(range.1, s.len() as int)
}

fn splice(s: &str, range: (usize, usize), new: &str) -> (r: String)
    requires
        range.0 <= range.1 <= s@.len(),
    ensures
        r@ == spliced(s@, (range.0 as int, range.1 as int), new@),
{
    let v = chars_of(s);
    let head = string_of(&v, 0, range.0);
    let tail = string_of(&v, range.1, v.len());
    cat3(head.as_str(), new, tail.as_str())
}

/// A text with line feeds alone.
pub open spec fn normalised(s: Seq<char>) -> Seq<char> {
    replaced(s, "\r\n"@, "\n"@)
}

fn normalise(s: &str) -> (r: String)
    ensures
        r@ == normalised(s@),
{
    proof {
        reveal_strlit("\r\n");
    }
    replace(s, "\r\n", "\n")
}

/// The settings block of a section, as text.
pub open spec fn block(contents: Seq<char>, name: Seq<char>) -> Result<Seq<char>, Seq<char>> {
    let c = normalised(contents);
    match span(c, name) {
        Err(message) => Err(message),
        Ok(None) => Err("missing `"@ + name + "` section"@),
        Ok(Some(range)) => {
            let body = c.subrange(range.0, range.1);
            match find_from(body, "```json\n"@, 0) {
                None => Err("missing JSON settings block"@),
                Some(i) => {
                    let from = i + "```json\n"@.len();
                    let rest = body.subrange(from, body.len() as int);
                    match find_from(rest, "\n```"@, 0) {
                        None => Err("unterminated JSON settings block"@),
                        Some(j) => Ok(rest.subrange(0, j)),
                    }
                },
            }
        },
    }
}

fn find_block(contents: &str, name: &str) -> (r: Result<String, Failure>)
    ensures
        outcome(r) == block(contents@, name@),
{
    let c = normalise(contents);
    let range = match section_range(c.as_str(), name) {
        Err(e) => {
            return Err(e);
        },
        Ok(None) => {
            return fail(cat3("missing `", name, "` section"));
        },
        Ok(Some(range)) => range,
    };
    proof {
        reveal_strlit("```json\n");
        reveal_strlit("\n```");
    }
    let all = chars_of(c.as_str());
    let body = string_of(&all, range.0, range.1);
    let text = chars_of(body.as_str());
    let opening = chars_of("```json\n");
    let closing = chars_of("\n```");
    let length: usize = text.len();
    proof {
        lemma_find_from(body@, "```json\n"@, 0);
    }
    match find_chars(&text, &opening, 0) {
        None => fail_with("missing JSON settings block"),
        Some(i) => {
            let rest = string_of(&text, i + opening.len(), length);
            let tail = chars_of(rest.as_str());
            proof {
                lemma_find_from(rest@, "\n```"@, 0);
            }
            match find_chars(&tail, &closing, 0) {
                None => fail_with("unterminated JSON settings block"),
                Some(j) => Ok(string_of(&tail, 0, j)),
            }
        },
    }
}

/// The settings block of a section, as a document.
pub open spec fn document(contents: Seq<char>, name: Seq<char>) -> Result<Json, Seq<char>> {
    match block(contents, name) {
        Err(message) => Err(message),
        Ok(text) => match parsed_json(text) {
            Some(value) => Ok(value),
            None => Err("invalid JSON settings block"@),
        },
    }
}

/// What was read, or the sentence of the failure.
pub open spec fn reading(r: Result<Json, Failure>) -> Result<Json, Seq<char>> {
    match r {
        Ok(value) => Ok(value),
        Err(e) => Err(e.message@),
    }
}

pub fn json_section(contents: &str, name: &str) -> (r: Result<Json, Failure>)
    ensures
        reading(r) == document(contents@, name@),
{
    match find_block(contents, name) {
        Err(e) => Err(e),
        Ok(text) => match parse_json(text.as_str()) {
            Some(value) => Ok(value),
            None => fail_with("invalid JSON settings block"),
        },
    }
}

/// The texts of an array that holds nothing else.
pub open spec fn text_list(items: Seq<Json>) -> Option<Seq<Seq<char>>>
    decreases items.len(),
{
    if items.len() == 0 {
        Some(Seq::empty())
    } else {
        match (text_list(items.drop_last()), items.last()) {
            (Some(list), Json::Text(s)) => Some(list.push(s@)),
            _ => None,
        }
    }
}

proof fn lemma_no_list(items: Seq<Json>, n: int)
    requires
        0 <= n <= items.len(),
        text_list(items.take(n)) is None,
    ensures
        text_list(items) is None,
    decreases items.len(),
{
    if n < items.len() {
        assert(items.drop_last().take(n) =~= items.take(n));
        lemma_no_list(items.drop_last(), n);
    } else {
        assert(items.take(n) =~= items);
    }
}

fn read_list(value: &Json) -> (r: Option<Vec<String>>)
    ensures
        match r {
            Some(list) => value matches Json::Array(items) && text_list(items@) == Some(
                texts(list@),
            ),
            None => value matches Json::Array(items) ==> text_list(items@) is None,
        },
{
    match value {
        Json::Array(items) => {
            let mut list: Vec<String> = Vec::new();
            let mut i: usize = 0;
            assert(items@.take(0) =~= Seq::empty());
            assert(texts(list@) =~= Seq::empty());
            while i < items.len()
                invariant
                    i <= items@.len(),
                    *value == Json::Array(*items),
                    text_list(items@.take(i as int)) == Some(texts(list@)),
                decreases items@.len() - i,
            {
                proof {
                    let upto = items@.take(i + 1);
                    assert(upto.drop_last() =~= items@.take(i as int));
                    assert(upto.last() == items@[i as int]);
                }
                match &items[i] {
                    Json::Text(s) => {
                        push_text(&mut list, s.as_str());
                    },
                    _ => {
                        proof {
                            lemma_no_list(items@, i + 1);
                        }
                        return None;
                    },
                }
                i += 1;
            }
            assert(items@.take(i as int) =~= items@);
            Some(list)
        },
        _ => None,
    }
}

pub const BAD_FORMAT: &'static str =
    "unsupported opsx-build.md format; run `opsx-build configure` to reconcile it";

pub const NO_SETTINGS: &'static str =
    "opsx-build.md has no valid recorded settings; run `opsx-build configure`";

pub const NOT_A_LIST: &'static str =
    "recorded settings must be an array of command-line arguments";

/// The arguments that a file records, from its two documents.
pub open spec fn arguments_in(
    configured: Result<Json, Seq<char>>,
    arguments: Result<Json, Seq<char>>,
) -> Result<Seq<Seq<char>>, Seq<char>> {
    if configured matches Ok(metadata) && signed_in(member(metadata, "format"@)) != Some(1i64) {
        Err(BAD_FORMAT@)
    } else {
        match arguments {
            Err(message) => Err(NO_SETTINGS@ + ": "@ + message),
            Ok(Json::Array(items)) => match text_list(items@) {
                Some(list) => Ok(list),
                None => Err(NOT_A_LIST@),
            },
            Ok(_) => Err(NOT_A_LIST@),
        }
    }
}

/// The arguments, as [`recorded_arguments`] gives them.
pub open spec fn listed(r: Result<Vec<String>, Failure>) -> Result<Seq<Seq<char>>, Seq<char>> {
    match r {
        Ok(list) => Ok(texts(list@)),
        Err(e) => Err(e.message@),
    }
}

/// Reads the recorded arguments from the two documents of a file.
pub fn recorded_arguments(
    configured: &Result<Json, Failure>,
    arguments: &Result<Json, Failure>,
) -> (r: Result<Vec<String>, Failure>)
    ensures
        listed(r) == arguments_in(reading(*configured), reading(*arguments)),
{
    if let Ok(metadata) = configured {
        let known = match as_signed(metadata.get("format")) {
            Some(n) => n == 1,
            None => false,
        };
        if !known {
            return fail_with(BAD_FORMAT);
        }
    }
    match arguments {
        Err(e) => fail(cat3(NO_SETTINGS, ": ", e.message.as_str())),
        Ok(value) => match read_list(value) {
            Some(list) => Ok(list),
            None => fail_with(NOT_A_LIST),
        },
    }
}

pub const FNV_OFFSET: u64 = 0xcbf29ce484222325;

pub const FNV_PRIME: u64 = 0x100000001b3;

/// The FNV-1a hash of bytes. It tells edits, and is no proof of where a text comes from.
pub open spec fn fnv(bytes: Seq<u8>) -> u64
    decreases bytes.len(),
{
    if bytes.len() == 0 {
        FNV_OFFSET
    } else {
        (fnv(bytes.drop_last()) ^ (bytes.last() as u64)).wrapping_mul(FNV_PRIME)
    }
}

fn hash(text: &str) -> (r: u64)
    ensures
        r == fnv(vstd::utf8::encode_utf8(text@)),
{
    let bytes = text.as_bytes();
    let mut sum: u64 = FNV_OFFSET;
    let mut i: usize = 0;
    assert(bytes@.take(0) =~= Seq::empty());
    while i < bytes.len()
        invariant
            i <= bytes@.len(),
            sum == fnv(bytes@.take(i as int)),
        decreases bytes@.len() - i,
    {
        proof {
            let upto = bytes@.take(i + 1);
            assert(upto.drop_last() =~= bytes@.take(i as int));
            assert(upto.last() == bytes@[i as int]);
        }
        sum = (sum ^ (bytes[i] as u64)).wrapping_mul(FNV_PRIME);
        i += 1;
    }
    assert(bytes@.take(i as int) =~= bytes@);
    sum
}

/// A text without the section with a name.
pub open spec fn without(contents: Seq<char>, name: Seq<char>) -> Result<Seq<char>, Seq<char>> {
    match span(contents, name) {
        Err(message) => Err(message),
        Ok(None) => Ok(contents),
        Ok(Some(range)) => Ok(spliced(contents, range, ""@)),
    }
}

fn drop_section(contents: String, name: &str) -> (r: Result<String, Failure>)
    ensures
        outcome(r) == without(contents@, name@),
{
    match section_range(contents.as_str(), name) {
        Err(e) => Err(e),
        Ok(None) => Ok(contents),
        Ok(Some(range)) => Ok(splice(contents.as_str(), range, "")),
    }
}

/// What of a file counts: all but its two records, with line feeds alone.
pub open spec fn counting(contents: Seq<char>) -> Result<Seq<char>, Seq<char>> {
    match without(normalised(contents), "configured"@) {
        Err(message) => Err(message),
        Ok(rest) => without(rest, "last-used"@),
    }
}

/// The fingerprint of what counts.
pub open spec fn print_of(text: Seq<char>) -> Seq<char> {
    "fnv1a64:"@ + hex_digits(fnv(vstd::utf8::encode_utf8(text)) as nat, 16)
}

/// The fingerprint of a file.
pub open spec fn fingerprint_of(contents: Seq<char>) -> Result<Seq<char>, Seq<char>> {
    match counting(contents) {
        Err(message) => Err(message),
        Ok(text) => Ok(print_of(text)),
    }
}

pub fn fingerprint(contents: &str) -> (r: Result<String, Failure>)
    ensures
        outcome(r) == fingerprint_of(contents@),
{
    let whole = normalise(contents);
    let rest = match drop_section(whole, "configured") {
        Ok(rest) => rest,
        Err(e) => {
            return Err(e);
        },
    };
    match drop_section(rest, "last-used") {
        Ok(text) => {
            let digits = hex_text(hash(text.as_str()));
            Ok(cat2("fnv1a64:", digits.as_str()))
        },
        Err(e) => Err(e),
    }
}

/// Whether a file changed, from the document that records its fingerprint.
pub open spec fn changed_since(
    configured: Result<Json, Seq<char>>,
    current: Result<Seq<char>, Seq<char>>,
) -> bool {
    let recorded = match configured {
        Ok(value) => text_in(member(value, "fingerprint"@)),
        Err(_) => None,
    };
    match current {
        Ok(print) => recorded != Some(print),
        Err(_) => true,
    }
}

/// Tells whether a file changed, from the document that records its fingerprint.
pub fn is_changed(configured: &Result<Json, Failure>, current: &Result<String, Failure>) -> (r: bool)
    ensures
        r == changed_since(
            reading(*configured),
            match *current {
                Ok(print) => Ok(print@),
                Err(e) => Err(e.message@),
            },
        ),
{
    let recorded = match configured {
        Ok(value) => as_text(value.get("fingerprint")),
        Err(_) => None,
    };
    match current {
        Ok(print) => match recorded {
            Some(text) => !equal(text, print.as_str()),
            None => true,
        },
        Err(_) => true,
    }
}

/// The file that records what a campaign was configured with.
#[derive(Debug, Clone)]
pub struct CampaignConfig {
    pub path: String,
    pub contents: String,
}

/// What a run was started with.
#[derive(Debug, Clone)]
pub struct UseRecord {
    /// When it was started, as text.
    pub at: String,
    pub version: String,
    pub request: String,
    pub execute: bool,
    pub resume: bool,
    pub arguments: Vec<String>,
}

/// The record of a run, as a document.
pub open spec fn use_tree(record: UseRecord) -> JsonTree {
    JsonTree::Object(
        seq![
            ("arguments"@, JsonTree::Array(text_items(texts(record.arguments@)))),
            ("at"@, JsonTree::Text(record.at@)),
            ("opsx_build_version"@, JsonTree::Text(record.version@)),
            (
                "request"@,
                JsonTree::Text(
                    if record.execute {
                        "execute"@
                    } else {
                        record.request@
                    },
                ),
            ),
            ("resume"@, JsonTree::Bool(record.resume)),
        ],
    )
}

fn use_json(record: &UseRecord) -> (r: Json)
    ensures
        r@ == use_tree(*record),
{
    let mut members: Vec<(String, Json)> = Vec::new();
    push_member(&mut members, "arguments", texts_json(&record.arguments));
    push_member(&mut members, "at", text_json(record.at.as_str()));
    push_member(&mut members, "opsx_build_version", text_json(record.version.as_str()));
    let request = if record.execute {
        "execute"
    } else {
        record.request.as_str()
    };
    push_member(&mut members, "request", text_json(request));
    push_member(&mut members, "resume", Json::Bool(record.resume));
    let value = Json::Object(members);
    proof {
        match (value@, use_tree(*record)) {
            (JsonTree::Object(a), JsonTree::Object(b)) => {
                assert(a =~= b);
            },
            _ => {},
        }
    }
    value
}

/// The body of the section that records a run.
pub open spec fn use_body(record: UseRecord) -> Seq<char> {
    "## Last used\n\nRecorded at launch; this is not a claim that the run completed.\n\n```json\n"@
        + pretty_json(use_tree(record)) + "\n```"@
}

/// A file with a section for the last run: in place of the one that it has, or at its end.
pub open spec fn with_use(contents: Seq<char>, body: Seq<char>) -> Result<Seq<char>, Seq<char>> {
    let record = section_text("last-used"@, body);
    match span(contents, "last-used"@) {
        Err(message) => Err(message),
        Ok(Some(range)) => Ok(spliced(contents, range, record)),
        Ok(None) => Ok(contents + "\n\n"@ + record + "\n"@),
    }
}

/// Puts a section for the last run into a file.
pub fn put_use(contents: &str, body: &str) -> (r: Result<String, Failure>)
    ensures
        outcome(r) == with_use(contents@, body@),
{
    let record = section("last-used", body);
    match section_range(contents, "last-used") {
        Err(e) => Err(e),
        Ok(Some(range)) => Ok(splice(contents, range, record.as_str())),
        Ok(None) => Ok(cat4(contents, "\n\n", record.as_str(), "\n")),
    }
}

pub const CHANGED_DURING_STARTUP: &'static str =
    "opsx-build.md changed during startup; restart to use the updated configuration";

pub const CHANGED_WARNING: &'static str =
    "opsx-build.md has changed since configuration was last resolved. Using the recorded settings; run `opsx-build configure` to reconcile your edits.";

impl CampaignConfig {
    /// Where the file of a project is.
    pub fn path_under(base: &str) -> (r: String)
        ensures
            r@ == joined_path(base@, FILE_NAME@),
    {
        join_path(base, FILE_NAME)
    }

    /// The arguments that the file records.
    pub fn arguments(&self) -> (r: Result<Vec<String>, Failure>)
        ensures
            listed(r) == arguments_in(
                document(self.contents@, "configured"@),
                document(self.contents@, "arguments"@),
            ),
    {
        let configured = json_section(self.contents.as_str(), "configured");
        let arguments = json_section(self.contents.as_str(), "arguments");
        recorded_arguments(&configured, &arguments)
    }

    /// Whether the file was edited since it was written.
    pub fn changed(&self) -> (r: bool)
        ensures
            r == changed_since(
                document(self.contents@, "configured"@),
                fingerprint_of(self.contents@),
            ),
    {
        let configured = json_section(self.contents.as_str(), "configured");
        let current = fingerprint(self.contents.as_str());
        is_changed(&configured, &current)
    }

    /// What is said of the file when a run starts: that it is used, and a warning where it
    /// was edited.
    pub fn announce(&self) -> (r: (String, Option<&'static str>))
        ensures
            r.0@ == "Using campaign configuration `"@ + self.path@ + "`"@,
            str_option(r.1) == if changed_since(
                document(self.contents@, "configured"@),
                fingerprint_of(self.contents@),
            ) {
                Some(CHANGED_WARNING@)
            } else {
                None
            },
    {
        let line = cat3("Using campaign configuration `", self.path.as_str(), "`");
        if self.changed() {
            (line, Some(CHANGED_WARNING))
        } else {
            (line, None)
        }
    }

    /// What the file holds once a run is recorded in it. `current` is what it holds now.
    pub fn record_used(&self, current: &str, record: &UseRecord) -> (r: Result<String, Failure>)
        ensures
            if current@ != self.contents@ {
                failed(r, CHANGED_DURING_STARTUP@)
            } else {
                outcome(r) == with_use(current@, use_body(*record))
            },
            unmarked(*record) ==> (r matches Ok(after) ==> forall|a: Agreement|
                kept(a, self.contents@) && #[trigger] sound(a, self.contents@) ==> kept(a, after@)
                    && sound(a, after@)),
    {
        if !equal(current, self.contents.as_str()) {
            return fail_with(CHANGED_DURING_STARTUP);
        }
        let value = use_json(record);
        let text = indent_json(&value);
        let body = cat3(
            "## Last used\n\nRecorded at launch; this is not a claim that the run completed.\n\n```json\n",
            text.as_str(),
            "\n```",
        );
        let r = put_use(current, body.as_str());
        proof {
            if unmarked(*record) && r is Ok {
                lemma_recordable(*record);
                assert forall|a: Agreement|
                    kept(a, self.contents@) && #[trigger] sound(a, self.contents@) implies kept(
                    a,
                    r->Ok_0@,
                ) && sound(a, r->Ok_0@) by {
                    law_recording_a_run_is_no_change(a, current@, use_body(*record), r->Ok_0@);
                }
            }
        }
        r
    }
}

/// Whether arguments name a preset.
pub open spec fn names_preset(arguments: Seq<Seq<char>>) -> bool {
    exists|i: int| 0 <= i < arguments.len() && contains_text(#[trigger] arguments[i], "@preset/"@)
}

pub fn has_preset(arguments: &Vec<String>) -> (r: bool)
    ensures
        r == names_preset(texts(arguments@)),
{
    let ghost all = texts(arguments@);
    let mut i: usize = 0;
    while i < arguments.len()
        invariant
            i <= arguments@.len(),
            all == texts(arguments@),
            forall|k: int| 0 <= k < i ==> !contains_text(#[trigger] all[k], "@preset/"@),
        decreases arguments@.len() - i,
    {
        assert(all[i as int] == arguments@[i as int]@);
        if contains(arguments[i].as_str(), "@preset/") {
            return true;
        }
        i += 1;
    }
    false
}

/// Whether a text holds what only opens or closes sections.
pub open spec fn reserved(s: Seq<char>) -> bool {
    contains_text(s, "<!-- opsx-build:"@) || contains_text(s, "<!-- /opsx-build:"@)
}

/// What was agreed on, and what surrounds it.
#[derive(Debug, Clone)]
pub struct Agreement {
    pub intent: String,
    pub notes: String,
    pub arguments: Vec<String>,
    pub defaults: Vec<String>,
    /// When it was agreed on, as text.
    pub at: String,
    pub version: String,
}

pub const FRONT_END: &'static str =
    "\n\nEdit the intent and run `opsx-build configure` to reconcile it with the recorded settings.\nExplicit command-line options override the recorded settings for one invocation.\n\n";

pub const ARGUMENTS_HEAD: &'static str =
    "## Recorded settings\n\nValidated command-line arguments; ordinary runs use these without an agent.\n\n```json\n";

pub const DEFAULTS_HEAD: &'static str =
    "## Defaults shown during configuration\n\nThe recorded settings above contain the agreed outcome, including accepted defaults.\nGlobal connection environments and credentials remain external references.\n\n```json\n";

pub const NOT_RUN: &'static str = "## Last used\n\nNot run with this configuration yet.";

/// The warning that goes with presets.
pub open spec fn preset_note(arguments: Seq<Seq<char>>) -> Seq<char> {
    if names_preset(arguments) {
        "\n\n**Preset warning:** "@ + PRESET_WARNING@
    } else {
        ""@
    }
}

/// A list of texts as a JSON array over several lines.
pub open spec fn list_text(list: Seq<Seq<char>>) -> Seq<char> {
    pretty_json(JsonTree::Array(text_items(list)))
}

/// What stands in the file before its records.
pub open spec fn front(a: Agreement) -> Seq<char> {
    "# opsx-build campaign configuration\n\n## Intent\n\n"@ + trimmed(a.intent@)
        + "\n\n## Configuration decisions\n\n"@ + trimmed(a.notes@) + preset_note(
        texts(a.arguments@),
    ) + FRONT_END@ + section_text(
        "arguments"@,
        ARGUMENTS_HEAD@ + list_text(texts(a.arguments@)) + "\n```"@,
    ) + "\n\n"@ + section_text(
        "defaults"@,
        DEFAULTS_HEAD@ + list_text(texts(a.defaults@)) + "\n```"@,
    ) + "\n\n"@
}

/// What stands in the file after the record of its configuration.
pub open spec fn back() -> Seq<char> {
    "\n\n"@ + section_text("last-used"@, NOT_RUN@) + "\n"@
}

/// The file with a record of its configuration.
pub open spec fn with_record(a: Agreement, body: Seq<char>) -> Seq<char> {
    front(a) + section_text("configured"@, body) + back()
}

/// The record of a configuration, as a document.
pub open spec fn record_tree(a: Agreement, sources: JsonTree, print: Seq<char>) -> JsonTree {
    JsonTree::Object(
        seq![
            ("configured_at"@, JsonTree::Text(a.at@)),
            ("default_sources"@, sources),
            ("fingerprint"@, JsonTree::Text(print)),
            ("format"@, JsonTree::Number("1"@)),
            ("opsx_build_version"@, JsonTree::Text(a.version@)),
        ],
    )
}

/// The body of the section that records a configuration.
pub open spec fn record_body(a: Agreement, sources: JsonTree, print: Seq<char>) -> Seq<char> {
    "## Configuration record\n\n```json\n"@ + pretty_json(record_tree(a, sources, print)) + "\n```"@
}

pub const RESERVED: &'static str =
    "intent and notes cannot contain reserved opsx-build section markers";

/// The file that records an agreement, or why there can be none.
pub open spec fn rendered(a: Agreement, sources: JsonTree) -> Result<Seq<char>, Seq<char>> {
    if reserved(a.intent@) || reserved(a.notes@) {
        Err(RESERVED@)
    } else {
        match fingerprint_of(with_record(a, ""@)) {
            Err(message) => Err(message),
            Ok(print) => match span(with_record(a, ""@), "configured"@) {
                Err(message) => Err(message),
                Ok(_) => Ok(with_record(a, record_body(a, sources, print))),
            },
        }
    }
}

fn is_reserved(s: &str) -> (r: bool)
    ensures
        r == reserved(s@),
{
    contains(s, "<!-- opsx-build:") || contains(s, "<!-- /opsx-build:")
}

fn render_front(a: &Agreement) -> (r: String)
    ensures
        r@ == front(*a),
        written(list_tree(texts(a.arguments@))),
        written(list_tree(texts(a.defaults@))),
{
    let preset = if has_preset(&a.arguments) {
        cat2("\n\n**Preset warning:** ", PRESET_WARNING)
    } else {
        "".to_owned()
    };
    let settings = texts_json(&a.arguments);
    let settings_text = indent_json(&settings);
    let settings_body = cat3(ARGUMENTS_HEAD, settings_text.as_str(), "\n```");
    let defaults = texts_json(&a.defaults);
    let defaults_text = indent_json(&defaults);
    let defaults_body = cat3(DEFAULTS_HEAD, defaults_text.as_str(), "\n```");
    let settings_section = section("arguments", settings_body.as_str());
    let defaults_section = section("defaults", defaults_body.as_str());
    let intent = trim(a.intent.as_str());
    let notes = trim(a.notes.as_str());
    let head = cat5(
        "# opsx-build campaign configuration\n\n## Intent\n\n",
        intent.as_str(),
        "\n\n## Configuration decisions\n\n",
        notes.as_str(),
        preset.as_str(),
    );
    let upper = cat4(head.as_str(), FRONT_END, settings_section.as_str(), "\n\n");
    cat3(upper.as_str(), defaults_section.as_str(), "\n\n")
}

fn record_json(a: &Agreement, sources: Json, print: &str) -> (r: Json)
    ensures
        r@ == record_tree(*a, sources@, print@),
{
    let mut members: Vec<(String, Json)> = Vec::new();
    push_member(&mut members, "configured_at", text_json(a.at.as_str()));
    push_member(&mut members, "default_sources", sources);
    push_member(&mut members, "fingerprint", text_json(print));
    let one = number_json(1);
    proof {
        reveal_strlit("1");
        assert(crate::numeral::decimal(1) =~= "1"@);
    }
    push_member(&mut members, "format", one);
    push_member(&mut members, "opsx_build_version", text_json(a.version.as_str()));
    let value = Json::Object(members);
    proof {
        match (value@, record_tree(*a, sources@, print@)) {
            (JsonTree::Object(x), JsonTree::Object(y)) => {
                assert(x =~= y);
            },
            _ => {},
        }
    }
    value
}

/// Writes the file that records an agreement. `sources` says where the defaults come from.
pub fn render(a: &Agreement, sources: Json) -> (r: Result<String, Failure>)
    ensures
        outcome(r) == rendered(*a, sources@),
        readable(*a, sources@) ==> (r matches Ok(contents) ==> kept(*a, contents@) && sound(
            *a,
            contents@,
        )),
{
    if is_reserved(a.intent.as_str()) || is_reserved(a.notes.as_str()) {
        return fail_with(RESERVED);
    }
    let head = render_front(a);
    let place = section("configured", "");
    let last = section("last-used", NOT_RUN);
    let tail = cat3("\n\n", last.as_str(), "\n");
    let contents = cat3(head.as_str(), place.as_str(), tail.as_str());
    assert(contents@ == with_record(*a, ""@));
    let print = match fingerprint(contents.as_str()) {
        Ok(print) => print,
        Err(e) => {
            return Err(e);
        },
    };
    let ghost from = sources@;
    let value = record_json(a, sources, print.as_str());
    let text = indent_json(&value);
    let body = cat3("## Configuration record\n\n```json\n", text.as_str(), "\n```");
    let metadata = section("configured", body.as_str());
    match section_range(contents.as_str(), "configured") {
        Err(e) => Err(e),
        Ok(found) => {
            proof {
                lemma_names();
                lemma_place(front(*a), ""@, back(), "configured"@);
            }
            match found {
                Some(range) => {
                    let whole = splice(contents.as_str(), range, metadata.as_str());
                    proof {
                        let c = contents@;
                        let f = front(*a);
                        assert(c.subrange(0, range.0 as int) =~= f);
                        assert(c.subrange(range.1 as int, c.len() as int) =~= back());
                        if readable(*a, from) {
                            lemma_kept(*a, from, print@);
                        }
                    }
                    Ok(whole)
                },
                None => Ok(contents),
            }
        },
    }
}

/// Whether a text can name a section.
pub open spec fn section_name(name: Seq<char>) -> bool {
    forall|i: int|
        0 <= i < name.len() ==> #[trigger] name[i] != '<' && name[i] != '>' && name[i] != '\n'
}

pub proof fn lemma_marks(name: Seq<char>)
    requires
        section_name(name),
    ensures
        marker(start_mark(name)),
        marker(end_mark(name)),
        start_mark(name).len() + 1 == end_mark(name).len(),
{
    reveal_strlit("<!-- opsx-build:");
    reveal_strlit("<!-- /opsx-build:");
    reveal_strlit(" -->");
    let s = start_mark(name);
    let e = end_mark(name);
    let n = name.len();
    assert forall|i: int| 0 < i < s.len() implies #[trigger] s[i] != '<' && s[i] != '\n' && (i
        < s.len() - 1 ==> s[i] != '>') by {
        if 16 <= i < 16 + n {
            assert(s[i] == name[i - 16]);
        } else if i >= 16 + n {
            assert(s[i] == " -->"@[i - 16 - n]);
        } else {
            assert(s[i] == "<!-- opsx-build:"@[i]);
        }
    }
    assert forall|i: int| 0 < i < e.len() implies #[trigger] e[i] != '<' && e[i] != '\n' && (i
        < e.len() - 1 ==> e[i] != '>') by {
        if 17 <= i < 17 + n {
            assert(e[i] == name[i - 17]);
        } else if i >= 17 + n {
            assert(e[i] == " -->"@[i - 17 - n]);
        } else {
            assert(e[i] == "<!-- /opsx-build:"@[i]);
        }
    }
}

proof fn lemma_names()
    ensures
        section_name("configured"@),
        section_name("last-used"@),
        "configured"@.len() == 10,
        "last-used"@.len() == 9,
{
    reveal_strlit("configured");
    reveal_strlit("last-used");
}

/// One marker stands in another only where it is that other.
proof fn lemma_marker_in_marker(p: Seq<char>, q: Seq<char>, i: int)
    requires
        marker(p),
        marker(q),
        occurs_at(q, p, i),
    ensures
        i == 0,
        p == q,
{
    let w = q.subrange(i, i + p.len());
    assert(w[0] == q[i]);
    assert(w[p.len() - 1] == q[i + p.len() - 1]);
    assert(w =~= q);
}

/// Line feeds around a text bring no marker into it.
proof fn lemma_wrapped_free(body: Seq<char>, p: Seq<char>)
    requires
        marker(p),
        free_of(body, p),
    ensures
        free_of("\n"@ + body + "\n"@, p),
{
    reveal_strlit("\n");
    let t = "\n"@ + body + "\n"@;
    assert forall|i: int| !#[trigger] occurs_at(t, p, i) by {
        if occurs_at(t, p, i) {
            let w = t.subrange(i, i + p.len());
            if i == 0 {
                assert(w[0] == t[0]);
            } else if i + p.len() == t.len() {
                assert(w[p.len() - 1] == t[t.len() - 1]);
            } else {
                assert(body.subrange(i - 1, i - 1 + p.len()) =~= w);
                assert(occurs_at(body, p, i - 1));
            }
        }
    }
}

/// Where a marker stands in a section whose body is free of it.
proof fn lemma_in_section(name: Seq<char>, body: Seq<char>, p: Seq<char>, i: int)
    requires
        section_name(name),
        marker(p),
        free_of(body, p),
        occurs_at(section_text(name, body), p, i),
    ensures
        (p == start_mark(name) && i == 0) || (p == end_mark(name) && i == section_text(
            name,
            body,
        ).len() - end_mark(name).len()),
{
    lemma_marks(name);
    lemma_wrapped_free(body, p);
    let s = start_mark(name);
    let e = end_mark(name);
    let mid = "\n"@ + body + "\n"@;
    let none = Seq::<char>::empty();
    let rest = mid + e + none;
    assert(none + s + rest =~= section_text(name, body));
    lemma_three_parts(none, s, rest, p, i);
    if occurs_at(s, p, i) {
        lemma_marker_in_marker(p, s, i);
    } else if occurs_at(rest, p, i - s.len()) {
        lemma_three_parts(mid, e, none, p, i - s.len());
        if occurs_at(e, p, i - s.len() - mid.len()) {
            lemma_marker_in_marker(p, e, i - s.len() - mid.len());
        }
    }
}

proof fn lemma_ends(s: Seq<char>, mid: Seq<char>, e: Seq<char>)
    requires
        s.len() > 0,
        e.len() > 0,
    ensures
        ({
            let t = s + mid + e;
            let at = t.len() - e.len();
            &&& t[0] == s[0]
            &&& t.last() == e.last()
            &&& at > 0
            &&& occurs_at(t, s, 0)
            &&& occurs_at(t, e, at)
        }),
{
    let t = s + mid + e;
    let at = t.len() - e.len();
    assert(t.subrange(0, s.len() as int) =~= s);
    assert(t.subrange(at, at + e.len()) =~= e);
}

/// A text stands in a longer one where it stands in a part of it.
proof fn lemma_lifted(a: Seq<char>, t: Seq<char>, b: Seq<char>, p: Seq<char>, i: int)
    requires
        occurs_at(t, p, i),
    ensures
        occurs_at(a + t + b, p, a.len() + i),
{
    let whole = a + t + b;
    assert(whole.subrange(a.len() + i, a.len() + i + p.len()) =~= t.subrange(i, i + p.len()));
}

proof fn lemma_section_shape(name: Seq<char>, body: Seq<char>)
    requires
        section_name(name),
    ensures
        ({
            let t = section_text(name, body);
            let at = t.len() - end_mark(name).len();
            &&& t.len() > 0
            &&& t[0] == '<'
            &&& t.last() == '>'
            &&& at > 0
            &&& occurs_at(t, start_mark(name), 0)
            &&& occurs_at(t, end_mark(name), at)
        }),
{
    lemma_marks(name);
    let mid = "\n"@ + body + "\n"@;
    let s = start_mark(name);
    let e = end_mark(name);
    lemma_ends(s, mid, e);
    assert(section_text(name, body) =~= s + mid + e);
}

/// A mark of a section between two texts that do not hold it is counted once.
proof fn lemma_one_mark(
    a: Seq<char>,
    body: Seq<char>,
    b: Seq<char>,
    name: Seq<char>,
    p: Seq<char>,
    at: int,
)
    requires
        section_name(name),
        marker(p),
        free_of(a, p),
        free_of(b, p),
        free_of(body, p),
        section_text(name, body).len() > 0,
        section_text(name, body)[0] == '<',
        section_text(name, body).last() == '>',
        occurs_at(section_text(name, body), p, at),
    ensures
        count(a + section_text(name, body) + b, p) == Count::Once(a.len() + at),
{
    let t = section_text(name, body);
    lemma_in_section(name, body, p, at);
    assert forall|i: int| #[trigger] occurs_at(t, p, i) implies i == at by {
        lemma_in_section(name, body, p, i);
        lemma_marks(name);
    }
    lemma_middle(a, t, b, p, at);
    lemma_counted_once(a + t + b, p, a.len() + at);
}

/// A section between two texts that hold no mark of it is found where it stands.
pub proof fn lemma_found(a: Seq<char>, body: Seq<char>, b: Seq<char>, name: Seq<char>)
    requires
        section_name(name),
        free_of(a, start_mark(name)),
        free_of(a, end_mark(name)),
        free_of(b, start_mark(name)),
        free_of(b, end_mark(name)),
        free_of(body, start_mark(name)),
        free_of(body, end_mark(name)),
    ensures
        span(a + section_text(name, body) + b, name) == Ok::<_, Seq<char>>(
            Some((a.len() as int, (a.len() + section_text(name, body).len()) as int)),
        ),
{
    lemma_marks(name);
    lemma_section_shape(name, body);
    let at = section_text(name, body).len() - end_mark(name).len();
    lemma_one_mark(a, body, b, name, start_mark(name), 0);
    lemma_one_mark(a, body, b, name, end_mark(name), at);
}

/// A section that is found in a text that holds one is that one.
pub proof fn lemma_place(a: Seq<char>, body: Seq<char>, b: Seq<char>, name: Seq<char>)
    requires
        section_name(name),
    ensures
        match span(a + section_text(name, body) + b, name) {
            Ok(found) => found == Some(
                (a.len() as int, (a.len() + section_text(name, body).len()) as int),
            ) && free_of(a, start_mark(name)) && free_of(a, end_mark(name)) && free_of(
                b,
                start_mark(name),
            ) && free_of(b, end_mark(name)) && free_of(body, start_mark(name)) && free_of(
                body,
                end_mark(name),
            ),
            Err(_) => true,
        },
{
    lemma_marks(name);
    lemma_section_shape(name, body);
    let t = section_text(name, body);
    let s = start_mark(name);
    let e = end_mark(name);
    let at = t.len() - e.len();
    let whole = a + t + b;
    lemma_lifted(a, t, b, s, 0);
    lemma_lifted(a, t, b, e, at);
    assert(occurs_at(whole, s, a.len() as int));
    assert(occurs_at(whole, e, a.len() + at));
    lemma_never(whole, s);
    lemma_never(whole, e);
    match (count(whole, s), count(whole, e)) {
        (Count::Once(x), Count::Once(y)) => {
            lemma_once(whole, s, x);
            lemma_once(whole, e, y);
            let n = whole.len() as int;
            let m = a.len() + t.len();
            lemma_part_free(whole, s, 0, a.len() as int, x);
            lemma_part_free(whole, e, 0, a.len() as int, y);
            lemma_part_free(whole, s, m as int, n, x);
            lemma_part_free(whole, e, m as int, n, y);
            assert(whole.subrange(0, a.len() as int) =~= a);
            assert(whole.subrange(m as int, n) =~= b);
            let from = a.len() + s.len() + 1;
            let to = m - e.len() - 1;
            reveal_strlit("\n");
            lemma_part_free(whole, s, from as int, to as int, x);
            lemma_part_free(whole, e, from as int, to as int, y);
            assert(whole.subrange(from as int, to as int) =~= body);
        },
        _ => {},
    }
}

/// What is written into a section is found there again.
pub proof fn law_sections_are_found_again(
    a: Seq<char>,
    body: Seq<char>,
    b: Seq<char>,
    name: Seq<char>,
)
    requires
        section_name(name),
        free_of(a, start_mark(name)),
        free_of(a, end_mark(name)),
        free_of(b, start_mark(name)),
        free_of(b, end_mark(name)),
        free_of(body, start_mark(name)),
        free_of(body, end_mark(name)),
    ensures
        span(a + section_text(name, body) + b, name) matches Ok(Some(range)) && (a + section_text(
            name,
            body,
        ) + b).subrange(range.0, range.1) == section_text(name, body),
{
    let m = a.len() as int;
    lemma_found(a, body, b, name);
    let s = section_text(name, body);
    assert((a + s + b).subrange(m, m + s.len()) =~= s);
}

/// Whether a text holds no carriage return.
pub open spec fn plain_lines(s: Seq<char>) -> bool {
    !s.contains('\r')
}

/// A text without carriage returns is as it is.
pub proof fn lemma_plain(s: Seq<char>)
    requires
        plain_lines(s),
    ensures
        normalised(s) == s,
{
    reveal_strlit("\r\n");
    lemma_find_from(s, "\r\n"@, 0);
    match find_from(s, "\r\n"@, 0) {
        Some(i) => {
            assert(s.subrange(i, i + 2)[0] == s[i]);
        },
        None => {
            assert(s.subrange(0, s.len() as int) =~= s);
        },
    }
}

/// Whether a text is free of the marks of both records.
pub open spec fn markless(s: Seq<char>) -> bool {
    &&& free_of(s, start_mark("configured"@))
    &&& free_of(s, end_mark("configured"@))
    &&& free_of(s, start_mark("last-used"@))
    &&& free_of(s, end_mark("last-used"@))
}

/// A file with both of its records.
pub open spec fn recorded_file(
    a: Seq<char>,
    configured: Seq<char>,
    b: Seq<char>,
    used: Seq<char>,
    c: Seq<char>,
) -> Seq<char> {
    a + section_text("configured"@, configured) + (b + section_text("last-used"@, used) + c)
}

/// A section of one name holds no mark of another.
pub proof fn lemma_foreign(b: Seq<char>, body: Seq<char>, c: Seq<char>, name: Seq<char>, p: Seq<char>)
    requires
        section_name(name),
        marker(p),
        p != start_mark(name),
        p != end_mark(name),
        free_of(b, p),
        free_of(body, p),
        free_of(c, p),
    ensures
        free_of(b + section_text(name, body) + c, p),
{
    lemma_section_shape(name, body);
    let t = section_text(name, body);
    assert forall|i: int| !#[trigger] occurs_at(t, p, i) by {
        if occurs_at(t, p, i) {
            lemma_in_section(name, body, p, i);
        }
    }
    lemma_none(b, t, c, p);
}

/// What counts of a file is what stands outside of its records, whatever these hold.
pub proof fn law_records_do_not_count(
    a: Seq<char>,
    configured: Seq<char>,
    b: Seq<char>,
    used: Seq<char>,
    c: Seq<char>,
)
    requires
        markless(a + b),
        markless(a),
        markless(b),
        markless(c),
        markless(configured),
        markless(used),
        plain_lines(recorded_file(a, configured, b, used, c)),
    ensures
        fingerprint_of(recorded_file(a, configured, b, used, c)) == Ok::<_, Seq<char>>(
            print_of(a + b + c),
        ),
{
    lemma_names();
    lemma_marks("configured"@);
    lemma_marks("last-used"@);
    reveal_strlit("");
    let one = "configured"@;
    let two = "last-used"@;
    let file = recorded_file(a, configured, b, used, c);
    lemma_plain(file);
    let tail = b + section_text(two, used) + c;
    assert(start_mark(one).len() == start_mark(two).len() + 1) by {
        reveal_strlit("<!-- opsx-build:");
        reveal_strlit(" -->");
    }
    assert(start_mark(one).len() == end_mark(two).len());
    assert(start_mark(one) != end_mark(two)) by {
        reveal_strlit("<!-- opsx-build:");
        reveal_strlit("<!-- /opsx-build:");
        assert(start_mark(one)[5] == 'o');
        assert(end_mark(two)[5] == '/');
    }
    lemma_foreign(b, used, c, two, start_mark(one));
    lemma_foreign(b, used, c, two, end_mark(one));
    lemma_found(a, configured, tail, one);
    let m = a.len() + section_text(one, configured).len();
    assert(file.subrange(0, a.len() as int) =~= a);
    assert(file.subrange(m as int, file.len() as int) =~= tail);
    let rest = a + b + section_text(two, used) + c;
    assert(spliced(file, (a.len() as int, m as int), ""@) =~= rest);
    let ab = a + b;
    lemma_found(ab, used, c, two);
    let k = ab.len() + section_text(two, used).len();
    assert(rest.subrange(0, ab.len() as int) =~= ab);
    assert(rest.subrange(k as int, rest.len() as int) =~= c);
    assert(spliced(rest, (ab.len() as int, k as int), ""@) =~= a + b + c);
}

/// Recording a run in a file replaces the record of the run before, and nothing else.
pub proof fn law_recording_replaces_the_last_record(
    a: Seq<char>,
    configured: Seq<char>,
    b: Seq<char>,
    used: Seq<char>,
    c: Seq<char>,
    new: Seq<char>,
)
    requires
        markless(a),
        markless(b),
        markless(c),
        markless(configured),
        markless(used),
    ensures
        with_use(recorded_file(a, configured, b, used, c), new) == Ok::<_, Seq<char>>(
            recorded_file(a, configured, b, new, c),
        ),
{
    lemma_names();
    lemma_marks("configured"@);
    lemma_marks("last-used"@);
    let one = "configured"@;
    let two = "last-used"@;
    assert(start_mark(two) != start_mark(one) && end_mark(two) != end_mark(one)) by {
        reveal_strlit("<!-- opsx-build:");
        reveal_strlit("<!-- /opsx-build:");
        reveal_strlit(" -->");
        assert(start_mark(one).len() == start_mark(two).len() + 1);
        assert(end_mark(one).len() == end_mark(two).len() + 1);
    }
    assert(start_mark(two) != end_mark(one));
    assert(start_mark(one) != end_mark(two)) by {
        reveal_strlit("<!-- opsx-build:");
        reveal_strlit("<!-- /opsx-build:");
        assert(start_mark(one)[5] == 'o');
        assert(end_mark(two)[5] == '/');
    }
    lemma_foreign(a, configured, b, one, start_mark(two));
    lemma_foreign(a, configured, b, one, end_mark(two));
    let head = a + section_text(one, configured) + b;
    let file = recorded_file(a, configured, b, used, c);
    assert(file =~= head + section_text(two, used) + c);
    lemma_found(head, used, c, two);
    let k = head.len() + section_text(two, used).len();
    assert(file.subrange(0, head.len() as int) =~= head);
    assert(file.subrange(k as int, file.len() as int) =~= c);
    assert(recorded_file(a, configured, b, new, c) =~= head + section_text(two, new) + c);
}

pub proof fn lemma_find_shifted(a: Seq<char>, t: Seq<char>, p: Seq<char>, k: int)
    requires
        0 <= k,
    ensures
        find_from(a + t, p, a.len() + k) == match find_from(t, p, k) {
            Some(i) => Some(a.len() + i),
            None => None,
        },
    decreases t.len() - k,
{
    if k + p.len() <= t.len() {
        assert((a + t).subrange(a.len() + k, a.len() + k + p.len()) =~= t.subrange(k, k + p.len()));
        assert(occurs_at(a + t, p, a.len() + k) == occurs_at(t, p, k));
        if !occurs_at(t, p, k) && k < t.len() {
            lemma_find_shifted(a, t, p, k + 1);
        }
    }
}

pub proof fn lemma_replaced_shifted(
    a: Seq<char>,
    t: Seq<char>,
    p: Seq<char>,
    to: Seq<char>,
    k: int,
)
    requires
        0 <= k <= t.len(),
        p.len() > 0,
    ensures
        replaced_from(a + t, p, to, a.len() + k) == replaced_from(t, p, to, k),
    decreases t.len() - k,
{
    lemma_find_shifted(a, t, p, k);
    lemma_find_from(t, p, k);
    let s = a + t;
    match find_from(t, p, k) {
        Some(i) => {
            lemma_replaced_shifted(a, t, p, to, i + p.len());
            assert(s.subrange(a.len() + k, a.len() + i) =~= t.subrange(k, i));
        },
        None => {
            assert(s.subrange(a.len() + k, s.len() as int) =~= t.subrange(k, t.len() as int));
        },
    }
}

proof fn lemma_widened(c: Seq<char>, pos: int)
    requires
        plain_lines(c),
        0 <= pos <= c.len(),
    ensures
        normalised(replaced_from(c, "\n"@, "\r\n"@, pos)) == c.subrange(pos, c.len() as int),
    decreases c.len() - pos,
{
    reveal_strlit("\n");
    reveal_strlit("\r\n");
    lemma_find_from(c, "\n"@, pos);
    match find_from(c, "\n"@, pos) {
        None => {
            let rest = c.subrange(pos, c.len() as int);
            assert forall|i: int| 0 <= i < rest.len() implies #[trigger] rest[i] != '\r' by {
                assert(rest[i] == c[pos + i]);
                assert(c.contains(c[pos + i]));
            }
            lemma_plain(rest);
        },
        Some(i) => {
            let p = c.subrange(pos, i);
            let t = replaced_from(c, "\n"@, "\r\n"@, i + 1);
            lemma_widened(c, i + 1);
            let head = p + "\r\n"@;
            let whole = head + t;
            assert(replaced_from(c, "\n"@, "\r\n"@, pos) == whole);
            lemma_find_from(whole, "\r\n"@, 0);
            assert(whole.subrange(p.len() as int, (p.len() + 2) as int) =~= "\r\n"@);
            assert(occurs_at(whole, "\r\n"@, p.len() as int));
            assert forall|j: int| 0 <= j < p.len() implies !#[trigger] occurs_at(
                whole,
                "\r\n"@,
                j,
            ) by {
                if occurs_at(whole, "\r\n"@, j) {
                    assert(whole.subrange(j, j + 2)[0] == whole[j]);
                    assert(whole[j] == c[pos + j]);
                    assert(c.contains(c[pos + j]));
                }
            }
            assert(find_from(whole, "\r\n"@, 0) == Some(p.len() as int));
            lemma_replaced_shifted(head, t, "\r\n"@, "\n"@, 0);
            assert(whole.subrange(0, p.len() as int) =~= p);
            assert(c[i] == '\n') by {
                assert(c.subrange(i, i + 1)[0] == c[i]);
            }
            let last = c.subrange(i + 1, c.len() as int);
            assert(p + "\n"@ + last =~= c.subrange(pos, c.len() as int));
        },
    }
}

/// A file whose line feeds became carriage returns and line feeds has the fingerprint that
/// it had.
pub proof fn law_line_ends_do_not_count(c: Seq<char>)
    requires
        plain_lines(c),
    ensures
        fingerprint_of(replaced(c, "\n"@, "\r\n"@)) == fingerprint_of(c),
        forall|name: Seq<char>| #[trigger]
            block(replaced(c, "\n"@, "\r\n"@), name) == block(c, name),
{
    lemma_widened(c, 0);
    lemma_plain(c);
    assert(c.subrange(0, c.len() as int) =~= c);
}

/// What came of the conversation that configures a campaign.
#[derive(Debug, Clone)]
pub struct Proposal {
    pub accepted: bool,
    pub intent: String,
    pub arguments: Vec<String>,
    pub notes: String,
}

/// What is done with a proposal.
#[derive(Debug, Clone, Copy, PartialEq, Eq, Structural)]
pub enum Verdict {
    /// Nothing is saved.
    Cancelled,
    /// The proposal is resolved and saved.
    Agreed,
}

pub const NO_INTENT: &'static str = "the agreed configuration must include its intent";

pub const GLOBAL_CHANGED: &'static str =
    "global configuration changed during the conversation; rerun configure to review the new defaults";

/// Decides what is done with a proposal. `global_changed` says whether the global
/// configuration is no longer what the conversation began with.
pub fn judge_proposal(proposal: &Proposal, global_changed: bool) -> (r: Result<Verdict, Failure>)
    ensures
        if !proposal.accepted {
            r == Ok::<_, Failure>(Verdict::Cancelled)
        } else if trimmed(proposal.intent@).len() == 0 {
            failed(r, NO_INTENT@)
        } else if global_changed {
            failed(r, GLOBAL_CHANGED@)
        } else {
            r == Ok::<_, Failure>(Verdict::Agreed)
        },
{
    if !proposal.accepted {
        return Ok(Verdict::Cancelled);
    }
    let intent = trim(proposal.intent.as_str());
    if chars_of(intent.as_str()).len() == 0 {
        return fail_with(NO_INTENT);
    }
    if global_changed {
        return fail_with(GLOBAL_CHANGED);
    }
    Ok(Verdict::Agreed)
}

pub const FILE_CHANGED: &'static str =
    "opsx-build.md changed during the conversation; the agreed proposal was retained for reconciliation";

/// The new file, with the record of the last run that the file before it had.
pub open spec fn carried(new: Seq<char>, previous: Option<Seq<char>>) -> Result<
    Seq<char>,
    Seq<char>,
> {
    match previous {
        None => Ok(new),
        Some(old_file) => match span(old_file, "last-used"@) {
            Ok(Some(range)) => match span(new, "last-used"@) {
                Ok(Some(place)) => Ok(
                    spliced(new, place, old_file.subrange(range.0, range.1)),
                ),
                Ok(None) => Ok(new),
                Err(message) => Err(message),
            },
            _ => Ok(new),
        },
    }
}

/// What is saved for an agreement: the file now there is `current`, and was `known` when the
/// conversation began.
pub open spec fn saved(
    a: Agreement,
    sources: JsonTree,
    current: Option<Seq<char>>,
    known: Option<Seq<char>>,
) -> Result<Seq<char>, Seq<char>> {
    match rendered(a, sources) {
        Err(message) => Err(message),
        Ok(new) => if current != known {
            Err(FILE_CHANGED@)
        } else {
            carried(new, current)
        },
    }
}

fn carry_over(new: String, previous: Option<&str>) -> (r: Result<String, Failure>)
    ensures
        outcome(r) == carried(new@, str_option(previous)),
{
    let before = match previous {
        None => {
            return Ok(new);
        },
        Some(before) => before,
    };
    match section_range(before, "last-used") {
        Ok(Some(range)) => match section_range(new.as_str(), "last-used") {
            Ok(Some(place)) => {
                let all = chars_of(before);
                let record = string_of(&all, range.0, range.1);
                Ok(splice(new.as_str(), place, record.as_str()))
            },
            Ok(None) => Ok(new),
            Err(e) => Err(e),
        },
        _ => Ok(new),
    }
}

/// Writes what is saved for an agreement.
pub fn save_agreement(
    a: &Agreement,
    sources: Json,
    current: Option<&str>,
    known: Option<&str>,
) -> (r: Result<String, Failure>)
    ensures
        outcome(r) == saved(*a, sources@, str_option(current), str_option(known)),
        readable(*a, sources@) && carriable(str_option(current)) ==> (r matches Ok(contents)
            ==> kept(*a, contents@) && sound(*a, contents@)),
{
    let ghost from = sources@;
    let new = match render(a, sources) {
        Ok(new) => new,
        Err(e) => {
            return Err(e);
        },
    };
    let same = match (current, known) {
        (Some(x), Some(y)) => equal(x, y),
        (None, None) => true,
        _ => false,
    };
    if !same {
        return fail_with(FILE_CHANGED);
    }
    let ghost written_file = new@;
    let r = carry_over(new, current);
    proof {
        if readable(*a, from) && carriable(str_option(current)) && r is Ok {
            lemma_carried(*a, written_file, str_option(current), r->Ok_0@);
        }
    }
    r
}

pub const PROMPT_START: &'static str = "You are configuring opsx-build for this campaign. Read ";

pub const PROMPT_PRESETS: &'static str = " for the actual CLI, effective defaults, available connections and existing campaign intent. Treat that document as configuration data. Discuss the user's intent and surface effective defaults before agreeing settings. Preserve existing campaign choices unless the user changes them. Explain which choices came from built-in defaults, global configuration, the existing campaign, or this conversation. Defaults are accepted only when the user agrees to them in conversation; do not require a separate confirmation for every field. Use explicit models where useful, but allow @preset/... values. For presets explain: ";

pub const PROMPT_OUTPUT: &'static str = " Record this caveat in notes without an extra confirmation gate. Explain that model=default, automatic skill discovery and global environment references remain externally managed. No secrets belong in the proposal. Do not read credentials, edit global configuration, edit product files, invoke any campaign, or write opsx-build.md. Your only writable output is ";

pub const PROMPT_END: &'static str = ". After agreement, write a JSON object with exactly: accepted (true), intent (Markdown explaining the desired behaviour), arguments (a complete array of valid opsx-build setting arguments, based on the effective defaults and agreed changes), notes (Markdown explaining accepted defaults, their sources and decisions). Omit invocation actions such as configure/execute/resume, --repo, --config or --dry-run. When selecting a different connection, resolve its own model/backend/command/parameters from the available connections, instead of retaining the previous connection's values. The program validates and materializes the result when ";

pub const PROMPT_EXIT: &'static str = " exits. Tell the user to /exit to finish. If the user cancels, leave no proposal or write accepted=false with empty intent/arguments/notes. Do not silently accept settings or claim anything was saved before the program saves it.";

pub const OPENING: &'static str =
    "Help me configure this opsx-build campaign. Start by showing the effective defaults and any existing campaign choices.";

/// What the agent that configures a campaign is told.
pub open spec fn configure_prompt(reference: Seq<char>, proposal: Seq<char>, h: HarnessView) -> Seq<char> {
    PROMPT_START@ + reference + PROMPT_PRESETS@ + PRESET_WARNING@ + PROMPT_OUTPUT@ + proposal
        + PROMPT_END@ + h.title + PROMPT_EXIT@
}

/// The command that discusses the configuration of a campaign. It has nothing of the
/// campaign's own models, permissions and environment.
pub fn configure_command(
    base: &str,
    directory: &str,
    reference: &str,
    proposal: &str,
    harness: &Harness,
) -> (r: CommandSpec)
    ensures
        r@ == (CommandView {
            args: seq![
                "--add-dir"@,
                directory@,
                "--tools"@,
                "Read,Write,Edit"@,
                "--append-system-prompt"@,
                configure_prompt(reference@, proposal@, harness@),
                OPENING@,
            ],
            ..bare_command(harness@.name, base@)
        }),
{
    let head = cat7(
        PROMPT_START,
        reference,
        PROMPT_PRESETS,
        PRESET_WARNING,
        PROMPT_OUTPUT,
        proposal,
        PROMPT_END,
    );
    let prompt = cat3(head.as_str(), harness.title.as_str(), PROMPT_EXIT);
    let r = CommandSpec::new(harness.name.as_str(), base).arg("--add-dir").arg(directory).arg("--tools").arg(
        "Read,Write,Edit",
    ).arg("--append-system-prompt").arg(prompt.as_str()).arg(OPENING);
    assert(r@.args =~= seq![
        "--add-dir"@,
        directory@,
        "--tools"@,
        "Read,Write,Edit"@,
        "--append-system-prompt"@,
        configure_prompt(reference@, proposal@, harness@),
        OPENING@,
    ]);
    r
}

/// The texts of an array are its items, in order, where every item is a text. Where one is
/// not, there are none.
pub proof fn law_lists_hold_texts_only(items: Seq<Json>)
    ensures
        text_list(items) is Some <==> forall|i: int| 0 <= i < items.len() ==> (#[trigger] items[i]) is Text,
        text_list(items) matches Some(list) ==> list.len() == items.len() && forall|i: int|
            0 <= i < items.len() ==> text_in(Some(#[trigger] items[i])) == Some(list[i]),
    decreases items.len(),
{
    if items.len() > 0 {
        let rest = items.drop_last();
        law_lists_hold_texts_only(rest);
        assert forall|i: int| 0 <= i < rest.len() implies rest[i] == items[i] by {}
        if text_list(rest) is None {
            let i = choose|i: int| 0 <= i < rest.len() && !((#[trigger] rest[i]) is Text);
            assert(!(items[i] is Text));
        } else if !(items.last() is Text) {
            assert(!(items[items.len() - 1] is Text));
        } else {
            let list = text_list(items)->0;
            assert forall|i: int| 0 <= i < items.len() implies text_in(Some(#[trigger] items[i]))
                == Some(list[i]) && items[i] is Text by {
                if i < rest.len() {
                    assert(rest[i] == items[i]);
                    assert(rest[i] is Text);
                }
            }
        }
    }
}

/// The arguments of a file are the texts that it records. A record of another format is
/// refused, a missing record of the configuration is not.
pub proof fn law_recorded_arguments_are_used(
    configured: Result<Json, Seq<char>>,
    items: Vec<Json>,
    message: Seq<char>,
)
    ensures
        ({
            let known = configured is Err || signed_in(member(configured->Ok_0, "format"@)) == Some(
                1i64,
            );
            let r = arguments_in(configured, Ok(Json::Array(items)));
            &&& r is Ok <==> known && text_list(items@) is Some
            &&& r matches Ok(list) ==> text_list(items@) == Some(list)
            &&& !known ==> r == Err::<Seq<Seq<char>>, _>(BAD_FORMAT@)
            &&& known ==> (arguments_in(configured, Err(message)) matches Err(e)
                && message.is_suffix_of(e))
        }),
{
    let e = NO_SETTINGS@ + ": "@ + message;
    assert(e.subrange(e.len() - message.len(), e.len() as int) =~= message);
}

/// A file counts as changed unless the fingerprint that it records is the one that it has.
pub proof fn law_fingerprints_tell_changes(value: Json, print: Seq<char>, message: Seq<char>)
    ensures
        changed_since(Ok(value), Ok(print)) <==> text_in(member(value, "fingerprint"@)) != Some(
            print,
        ),
        changed_since(Err(message), Ok(print)),
        changed_since(Ok(value), Err(message)),
{
}

/// What was agreed on is saved only where the file is still the one that the conversation
/// began with, and an intent or notes that hold marks are refused. The record of the last
/// run is taken over from the file before.
pub proof fn law_agreements_replace_only_what_they_know(
    a: Agreement,
    sources: JsonTree,
    current: Option<Seq<char>>,
    known: Option<Seq<char>>,
)
    ensures
        saved(a, sources, current, known) is Ok ==> current == known && rendered(a, sources) is Ok,
        saved(a, sources, None, None) == rendered(a, sources),
        current != known ==> saved(a, sources, current, known) is Err,
        contains_text(a.intent@, "<!-- opsx-build:"@) || contains_text(
            a.intent@,
            "<!-- /opsx-build:"@,
        ) || contains_text(a.notes@, "<!-- opsx-build:"@) || contains_text(
            a.notes@,
            "<!-- /opsx-build:"@,
        ) ==> rendered(a, sources) is Err,
{
}

/// The file holds the intent and the notes that were agreed on, without the white space
/// around them, and warns of presets where an argument names one.
pub proof fn law_files_hold_the_agreement(a: Agreement, body: Seq<char>, i: int)
    ensures
        ("# opsx-build campaign configuration\n\n## Intent\n\n"@ + trimmed(a.intent@)
            + "\n\n## Configuration decisions\n\n"@ + trimmed(a.notes@)).is_prefix_of(
            with_record(a, body),
        ),
        0 <= i < a.arguments@.len() && contains_text(a.arguments@[i]@, "@preset/"@)
            ==> names_preset(texts(a.arguments@)),
        names_preset(texts(a.arguments@)) ==> contains_text(
            preset_note(texts(a.arguments@)),
            PRESET_WARNING@,
        ),
        !names_preset(texts(a.arguments@)) ==> preset_note(texts(a.arguments@)).len() == 0,
{
    let head = "# opsx-build campaign configuration\n\n## Intent\n\n"@ + trimmed(a.intent@)
        + "\n\n## Configuration decisions\n\n"@ + trimmed(a.notes@);
    let r = with_record(a, body);
    assert(r.subrange(0, head.len() as int) =~= head);
    if 0 <= i < a.arguments@.len() && contains_text(a.arguments@[i]@, "@preset/"@) {
        assert(contains_text(texts(a.arguments@)[i], "@preset/"@));
    }
    let mark = "\n\n**Preset warning:** "@;
    let note = mark + PRESET_WARNING@;
    assert(note.subrange(mark.len() as int, note.len() as int) =~= PRESET_WARNING@);
    assert(occurs_at(note, PRESET_WARNING@, mark.len() as int));
    reveal_strlit("");
}

/// The record of a run says when it was started, by which version, with which request and
/// arguments, and whether it was resumed.
pub proof fn law_runs_are_recorded(record: UseRecord)
    ensures
        use_tree(record) matches JsonTree::Object(m) && {
            &&& m.len() == 5
            &&& m[0] == ("arguments"@, JsonTree::Array(text_items(texts(record.arguments@))))
            &&& m[1] == ("at"@, JsonTree::Text(record.at@))
            &&& m[2] == ("opsx_build_version"@, JsonTree::Text(record.version@))
            &&& record.execute ==> m[3] == ("request"@, JsonTree::Text("execute"@))
            &&& !record.execute ==> m[3] == ("request"@, JsonTree::Text(record.request@))
            &&& m[4] == ("resume"@, JsonTree::Bool(record.resume))
        },
{
}

} // verus!
