//! The protocol between a workflow stage and the agent that carries it out: which
//! terminal results a stage accepts, and how a result is read off a response.
use crate::json::{as_text, get_in, member_of, parse_json, parsed_json, target, text_in, Json};
use crate::text::{
    after_prefix, cat3, equal, lemma_trimmed_bare, lemma_uppered_same, lines, lines_of, occurs_at,
    replace, replaced, starts, str_option, strip_prefix, take_chars, text_option, texts, to_upper,
    trim, trimmed, uppered,
};
use vstd::prelude::*;
use vstd::string::*;

verus! {

/// Names a conversation with an agent.
#[derive(Debug, Clone, PartialEq, Eq)]
pub struct SessionId {
    value: String,
}

impl View for SessionId {
    type V = Seq<char>;

    closed spec fn view(&self) -> Seq<char> {
        self.value@
    }
}

impl SessionId {
    pub fn new(value: &str) -> (r: SessionId)
        ensures
            r@ == value@,
    {
        SessionId { value: value.to_owned() }
    }

    pub fn as_str(&self) -> (r: &str)
        ensures
            r@ == self@,
    {
        self.value.as_str()
    }

    pub fn copy(&self) -> (r: SessionId)
        ensures
            r@ == self@,
    {
        SessionId { value: self.value.clone() }
    }
}

/// Whether a stage begins a conversation or goes on with one.
#[derive(Debug, Clone)]
pub enum SessionMode {
    New { id: SessionId, name: Option<String> },
    Resume { id: SessionId },
}

/// What a [`SessionMode`] holds.
pub enum SessionModeView {
    New { id: Seq<char>, name: Option<Seq<char>> },
    Resume { id: Seq<char> },
}

impl SessionModeView {
    pub open spec fn id(self) -> Seq<char> {
        match self {
            SessionModeView::New { id, .. } => id,
            SessionModeView::Resume { id } => id,
        }
    }
}

impl View for SessionMode {
    type V = SessionModeView;

    open spec fn view(&self) -> SessionModeView {
        match *self {
            SessionMode::New { id, name } => SessionModeView::New {
                id: id@,
                name: text_option(name),
            },
            SessionMode::Resume { id } => SessionModeView::Resume { id: id@ },
        }
    }
}

impl SessionMode {
    pub fn id(&self) -> (r: &SessionId)
        ensures
            r@ == self@.id(),
    {
        match self {
            SessionMode::New { id, .. } => id,
            SessionMode::Resume { id } => id,
        }
    }
}

/// The terminal result of a stage.
#[derive(Debug, Clone, Copy, PartialEq, Eq, Structural)]
pub enum StageSignal {
    Ready,
    Done,
    TooLarge,
    Verified,
    Retry,
    Blocked,
    Replanned,
}

/// Which terminal results a stage accepts.
#[derive(Debug, Clone, Copy, PartialEq, Eq, Structural)]
pub enum StageProtocol {
    Ready,
    Worker,
    Propose,
    Verify,
    Frontier,
    TerminalReview,
}

pub const READY_SCHEMA: &'static str = "{\"type\":\"object\",\"properties\":{\"opsx_status\":{\"type\":\"string\",\"enum\":[\"READY\",\"BLOCKED\"]},\"summary\":{\"type\":\"string\",\"description\":\"Concise stage result. For BLOCKED, include the exact blocker and evidence needed for a human decision.\"}},\"required\":[\"opsx_status\",\"summary\"],\"additionalProperties\":false}";

pub const WORKER_SCHEMA: &'static str = "{\"type\":\"object\",\"properties\":{\"opsx_status\":{\"type\":\"string\",\"enum\":[\"READY\",\"TOO_LARGE\",\"BLOCKED\"]},\"summary\":{\"type\":\"string\",\"description\":\"Concise worker-stage result. For TOO_LARGE, cite a concrete capacity or scope constraint, what was inspected or attempted, why ordered tasks within the assigned change cannot resolve it, and the minimum necessary decomposition. Multiple implementation steps or tests alone are insufficient. For BLOCKED, include the exact external decision or unavailable input.\"}},\"required\":[\"opsx_status\",\"summary\"],\"additionalProperties\":false}";

pub const PROPOSE_SCHEMA: &'static str = "{\"type\":\"object\",\"properties\":{\"opsx_status\":{\"type\":\"string\",\"enum\":[\"READY\",\"DONE\",\"TOO_LARGE\",\"BLOCKED\"]},\"summary\":{\"type\":\"string\",\"description\":\"Concise proposal result. DONE means the requested objective is already satisfied. For TOO_LARGE, cite repository evidence of a concrete capacity or scope constraint, why ordered tasks within the assigned change cannot resolve it, and the minimum necessary decomposition. Multiple implementation steps or tests alone are insufficient. Neither outcome may create or modify OpenSpec artifacts. Include the exact external blocker for BLOCKED.\"}},\"required\":[\"opsx_status\",\"summary\"],\"additionalProperties\":false}";

pub const VERIFY_SCHEMA: &'static str = "{\"type\":\"object\",\"properties\":{\"opsx_status\":{\"type\":\"string\",\"enum\":[\"VERIFIED\",\"RETRY\",\"BLOCKED\"]},\"summary\":{\"type\":\"string\",\"description\":\"Concise stage result. For RETRY, include every actionable verification finding needed by the repair stage. For BLOCKED, include the exact blocker.\"}},\"required\":[\"opsx_status\",\"summary\"],\"additionalProperties\":false}";

pub const FRONTIER_SCHEMA: &'static str = "{\"type\":\"object\",\"properties\":{\"opsx_status\":{\"type\":\"string\",\"enum\":[\"REPLANNED\",\"BLOCKED\"]},\"summary\":{\"type\":\"string\",\"description\":\"Concise frontier-planning result. REPLANNED means the oversized agenda slice was replaced by a smaller first slice plus one or more ordered hierarchical descendants and committed. BLOCKED means safe subdivision requires a genuine external decision.\"}},\"required\":[\"opsx_status\",\"summary\"],\"additionalProperties\":false}";

pub const TERMINAL_REVIEW_SCHEMA: &'static str = "{\"type\":\"object\",\"properties\":{\"opsx_status\":{\"type\":\"string\",\"enum\":[\"READY\",\"REPLANNED\",\"BLOCKED\"]},\"summary\":{\"type\":\"string\",\"description\":\"Concise terminal acceptance review. READY means the project is ready for its final acceptance slice and no repository state changed. REPLANNED means one or more bounded remediation slices were inserted before the unchanged terminal gate and committed. BLOCKED means safe review or remediation requires a genuine external decision.\"}},\"required\":[\"opsx_status\",\"summary\"],\"additionalProperties\":false}";

impl StageProtocol {
    /// The accepted terminal values, as a prompt lists them.
    pub open spec fn values(self) -> Seq<char> {
        match self {
            StageProtocol::Ready => "READY or BLOCKED"@,
            StageProtocol::Worker => "READY, TOO_LARGE, or BLOCKED"@,
            StageProtocol::Propose => "READY, DONE, TOO_LARGE, or BLOCKED"@,
            StageProtocol::Verify => "VERIFIED, RETRY, or BLOCKED"@,
            StageProtocol::Frontier => "REPLANNED or BLOCKED"@,
            StageProtocol::TerminalReview => "READY, REPLANNED, or BLOCKED"@,
        }
    }

    pub fn terminal_values(self) -> (r: &'static str)
        ensures
            r@ == self.values(),
    {
        match self {
            StageProtocol::Ready => "READY or BLOCKED",
            StageProtocol::Worker => "READY, TOO_LARGE, or BLOCKED",
            StageProtocol::Propose => "READY, DONE, TOO_LARGE, or BLOCKED",
            StageProtocol::Verify => "VERIFIED, RETRY, or BLOCKED",
            StageProtocol::Frontier => "REPLANNED or BLOCKED",
            StageProtocol::TerminalReview => "READY, REPLANNED, or BLOCKED",
        }
    }

    /// The schema of the structured result.
    pub open spec fn schema(self) -> Seq<char> {
        match self {
            StageProtocol::Ready => READY_SCHEMA@,
            StageProtocol::Worker => WORKER_SCHEMA@,
            StageProtocol::Propose => PROPOSE_SCHEMA@,
            StageProtocol::Verify => VERIFY_SCHEMA@,
            StageProtocol::Frontier => FRONTIER_SCHEMA@,
            StageProtocol::TerminalReview => TERMINAL_REVIEW_SCHEMA@,
        }
    }

    pub fn json_schema(self) -> (r: &'static str)
        ensures
            r@ == self.schema(),
    {
        match self {
            StageProtocol::Ready => READY_SCHEMA,
            StageProtocol::Worker => WORKER_SCHEMA,
            StageProtocol::Propose => PROPOSE_SCHEMA,
            StageProtocol::Verify => VERIFY_SCHEMA,
            StageProtocol::Frontier => FRONTIER_SCHEMA,
            StageProtocol::TerminalReview => TERMINAL_REVIEW_SCHEMA,
        }
    }
}

/// What a stage came back with.
#[derive(Debug, Clone)]
pub struct StageResult {
    pub text: String,
    pub session_id: Option<String>,
    pub signal: StageSignal,
}

/// A response without a terminal result.
#[derive(Debug, Clone)]
pub struct MissingTerminalResult {
    message: String,
}

impl View for MissingTerminalResult {
    type V = Seq<char>;

    closed spec fn view(&self) -> Seq<char> {
        self.message@
    }
}

/// How much of a response is quoted.
pub const EXCERPT_CHARS: usize = 320;

/// The start of a response on one line, cut where it is long.
pub open spec fn excerpt(response: Seq<char>) -> Seq<char> {
    if response.len() > EXCERPT_CHARS {
        replaced(response.take(EXCERPT_CHARS as int).push('…'), "\n"@, " "@)
    } else {
        replaced(response, "\n"@, " "@)
    }
}

/// The diagnostic for a response without a terminal result.
pub open spec fn missing_result(message: Seq<char>, last_response: Option<Seq<char>>) -> Seq<char> {
    match last_response {
        Some(response) if trimmed(response).len() > 0 => message + ". Last agent response: "@
            + excerpt(trimmed(response)),
        _ => message,
    }
}

impl MissingTerminalResult {
    pub fn new(message: &str, last_response: Option<&str>) -> (r: MissingTerminalResult)
        ensures
            r@ == missing_result(message@, str_option(last_response)),
    {
        if let Some(text) = last_response {
            let response = trim(text);
            let length: usize = response.as_str().unicode_len();
            if length > 0 {
                let mut quoted = take_chars(response.as_str(), EXCERPT_CHARS);
                if length > EXCERPT_CHARS {
                    quoted.push('…');
                }
                proof {
                    reveal_strlit("\n");
                }
                let line = replace(quoted.as_str(), "\n", " ");
                return MissingTerminalResult {
                    message: cat3(message, ". Last agent response: ", line.as_str()),
                };
            }
        }
        MissingTerminalResult { message: message.to_owned() }
    }

    /// The diagnostic.
    pub fn message(&self) -> (r: String)
        ensures
            r@ == self@,
    {
        self.message.clone()
    }
}

/// Why an agent gave no result.
#[derive(Debug, Clone)]
pub enum AgentError {
    /// The operator asked for a pause.
    Pause,
    /// The work is handed to the frontier model, for the reason given.
    Escalation { reason: String },
    /// The response had no terminal result.
    MissingTerminal { result: MissingTerminalResult },
    /// Anything else.
    Other { message: String },
}

/// Whether the agent answered without a terminal result.
pub fn is_missing_terminal_result(error: &AgentError) -> (r: bool)
    ensures
        r == (error is MissingTerminal),
{
    match error {
        AgentError::MissingTerminal { .. } => true,
        _ => false,
    }
}

/// The word for a signal.
pub open spec fn signal_word(signal: StageSignal) -> Seq<char> {
    match signal {
        StageSignal::Ready => "READY"@,
        StageSignal::Done => "DONE"@,
        StageSignal::TooLarge => "TOO_LARGE"@,
        StageSignal::Verified => "VERIFIED"@,
        StageSignal::Retry => "RETRY"@,
        StageSignal::Blocked => "BLOCKED"@,
        StageSignal::Replanned => "REPLANNED"@,
    }
}

/// The signal that a status value stands for, whatever its case and the white space
/// around it.
pub open spec fn status_signal(status: Seq<char>) -> Option<StageSignal> {
    let word = uppered(trimmed(status));
    if word == "READY"@ {
        Some(StageSignal::Ready)
    } else if word == "DONE"@ {
        Some(StageSignal::Done)
    } else if word == "TOO_LARGE"@ {
        Some(StageSignal::TooLarge)
    } else if word == "VERIFIED"@ {
        Some(StageSignal::Verified)
    } else if word == "RETRY"@ {
        Some(StageSignal::Retry)
    } else if word == "BLOCKED"@ {
        Some(StageSignal::Blocked)
    } else if word == "REPLANNED"@ {
        Some(StageSignal::Replanned)
    } else {
        None
    }
}

pub fn parse_status_value(status: &str) -> (r: Option<StageSignal>)
    ensures
        r == status_signal(status@),
{
    let bare = trim(status);
    let word = to_upper(bare.as_str());
    let w = word.as_str();
    if equal(w, "READY") {
        Some(StageSignal::Ready)
    } else if equal(w, "DONE") {
        Some(StageSignal::Done)
    } else if equal(w, "TOO_LARGE") {
        Some(StageSignal::TooLarge)
    } else if equal(w, "VERIFIED") {
        Some(StageSignal::Verified)
    } else if equal(w, "RETRY") {
        Some(StageSignal::Retry)
    } else if equal(w, "BLOCKED") {
        Some(StageSignal::Blocked)
    } else if equal(w, "REPLANNED") {
        Some(StageSignal::Replanned)
    } else {
        None
    }
}

/// Every signal is read back from the word for it.
pub proof fn law_status_words(signal: StageSignal)
    ensures
        status_signal(signal_word(signal)) == Some(signal),
{
    reveal_strlit("READY");
    reveal_strlit("DONE");
    reveal_strlit("TOO_LARGE");
    reveal_strlit("VERIFIED");
    reveal_strlit("RETRY");
    reveal_strlit("BLOCKED");
    reveal_strlit("REPLANNED");
    let word = signal_word(signal);
    lemma_trimmed_bare(word);
    lemma_uppered_same(word);
    assert("READY"@[0] != "RETRY"@[0] || "READY"@[2] != "RETRY"@[2]);
    assert("VERIFIED"@.len() == 8 && "REPLANNED"@.len() == 9 && "TOO_LARGE"@.len() == 9);
    assert("REPLANNED"@[0] != "TOO_LARGE"@[0]);
}

/// The signal that a terminal marker on a line gives. The older spelling of the
/// marker is still read.
pub open spec fn line_signal(line: Seq<char>) -> Option<StageSignal> {
    match after_prefix(trimmed(line), "OPSX_STATUS:"@) {
        Some(value) => status_signal(value),
        None => match after_prefix(trimmed(line), "OSPX_STATUS:"@) {
            Some(value) => status_signal(value),
            None => None,
        },
    }
}

/// The signal on the last line that gives one.
pub open spec fn last_signal(lines: Seq<Seq<char>>) -> Option<StageSignal>
    decreases lines.len(),
{
    if lines.len() == 0 {
        None
    } else {
        match line_signal(lines.last()) {
            Some(signal) => Some(signal),
            None => last_signal(lines.drop_last()),
        }
    }
}

/// Only the last line with a valid marker decides: lines after it that hold none
/// change nothing, and what precedes it is not looked at.
pub proof fn law_last_marker_decides(
    before: Seq<Seq<char>>,
    line: Seq<char>,
    after: Seq<Seq<char>>,
    signal: StageSignal,
)
    requires
        line_signal(line) == Some(signal),
        forall|i: int| 0 <= i < after.len() ==> line_signal(#[trigger] after[i]) is None,
    ensures
        last_signal(before.push(line) + after) == Some(signal),
    decreases after.len(),
{
    let all = before.push(line) + after;
    if after.len() == 0 {
        assert(all =~= before.push(line));
    } else {
        assert(all.last() == after.last());
        assert(all.drop_last() =~= before.push(line) + after.drop_last());
        law_last_marker_decides(before, line, after.drop_last(), signal);
    }
}

/// A valid structured status outranks any terminal marker in the text.
pub proof fn law_structured_status_outranks_markers(
    document: Option<Json>,
    text: Seq<char>,
    other: Seq<char>,
)
    requires
        structured_signal(document) is Some,
    ensures
        response_signal(document, text) == response_signal(document, other),
{
}

fn marker_signal(line: &str) -> (r: Option<StageSignal>)
    ensures
        r == line_signal(line@),
{
    let bare = trim(line);
    match strip_prefix(bare.as_str(), "OPSX_STATUS:") {
        Some(value) => parse_status_value(value.as_str()),
        None => match strip_prefix(bare.as_str(), "OSPX_STATUS:") {
            Some(value) => parse_status_value(value.as_str()),
            None => None,
        },
    }
}

/// The signal that the last valid terminal marker of a text gives.
pub fn parse_terminal_signal(text: &str) -> (r: Option<StageSignal>)
    ensures
        r == last_signal(lines_of(text@)),
{
    let all = lines(text);
    let mut i: usize = all.len();
    assert(texts(all@).take(i as int) =~= texts(all@));
    while i > 0
        invariant
            i <= all@.len(),
            texts(all@) == lines_of(text@),
            last_signal(lines_of(text@)) == last_signal(texts(all@).take(i as int)),
        decreases i,
    {
        let signal = marker_signal(all[i - 1].as_str());
        proof {
            let t = texts(all@).take(i as int);
            assert(t.last() == all@[i - 1]@);
            assert(t.drop_last() =~= texts(all@).take(i - 1));
        }
        if signal.is_some() {
            return signal;
        }
        i -= 1;
    }
    None
}

/// The signal that a structured result gives.
pub open spec fn structured_signal(document: Option<Json>) -> Option<StageSignal> {
    let status = match member_of(document, "opsx_status"@) {
        Some(value) => Some(value),
        None => member_of(document, "ospx_status"@),
    };
    match text_in(status) {
        Some(value) => status_signal(value),
        None => None,
    }
}

/// The signal of a response, given the document that it is, if it is one.
pub open spec fn response_signal(document: Option<Json>, text: Seq<char>) -> Option<StageSignal> {
    match structured_signal(document) {
        Some(signal) => Some(signal),
        None => last_signal(lines_of(text)),
    }
}

/// The summary of a response: that of the structured result, or the whole text.
pub open spec fn response_text(document: Option<Json>, text: Seq<char>) -> Seq<char> {
    match text_in(member_of(document, "summary"@)) {
        Some(summary) => summary,
        None => text,
    }
}

/// The signal that a structured result gives.
pub fn read_structured_signal(document: Option<&Json>) -> (r: Option<StageSignal>)
    ensures
        r == structured_signal(target(document)),
{
    let status = match get_in(document, "opsx_status") {
        Some(value) => Some(value),
        None => get_in(document, "ospx_status"),
    };
    match as_text(status) {
        Some(value) => parse_status_value(value),
        None => None,
    }
}

/// What is reported for a response of `backend` without a terminal result.
pub open spec fn no_terminal_message(backend: Seq<char>) -> Seq<char> {
    backend
        + " response contained neither structured `opsx_status` output nor an `OPSX_STATUS` terminal marker"@
}

/// Reads a stage's result off a response, given the JSON document that the trimmed
/// response is, if it is one.
pub fn stage_result_from_document(
    document: Option<&Json>,
    text: &str,
    session_id: Option<String>,
    backend: &str,
) -> (r: Result<StageResult, MissingTerminalResult>)
    ensures
        match r {
            Ok(result) => {
                &&& response_signal(target(document), text@) == Some(result.signal)
                &&& result.text@ == response_text(target(document), text@)
                &&& result.session_id == session_id
            },
            Err(missing) => {
                &&& response_signal(target(document), text@) is None
                &&& missing@ == missing_result(no_terminal_message(backend@), Some(text@))
            },
        },
{
    let structured = read_structured_signal(document);
    let found = match structured {
        Some(signal) => Some(signal),
        None => parse_terminal_signal(text),
    };
    match found {
        None => {
            let message = backend.to_owned().concat(
                " response contained neither structured `opsx_status` output nor an `OPSX_STATUS` terminal marker",
            );
            Err(MissingTerminalResult::new(message.as_str(), Some(text)))
        },
        Some(signal) => {
            let summary = match as_text(get_in(document, "summary")) {
                Some(summary) => summary.to_owned(),
                None => text.to_owned(),
            };
            Ok(StageResult { text: summary, session_id, signal })
        },
    }
}

/// Reads a stage's result off a response: the structured result where the response is
/// a JSON document with a valid status, else the last terminal marker.
pub fn stage_result_from_text(text: &str, session_id: Option<String>, backend: &str) -> (r: Result<
    StageResult,
    MissingTerminalResult,
>)
    ensures
        match r {
            Ok(result) => {
                &&& response_signal(parsed_json(trimmed(text@)), text@) == Some(result.signal)
                &&& result.text@ == response_text(parsed_json(trimmed(text@)), text@)
                &&& result.session_id == session_id
            },
            Err(missing) => {
                &&& response_signal(parsed_json(trimmed(text@)), text@) is None
                &&& missing@ == missing_result(no_terminal_message(backend@), Some(text@))
            },
        },
{
    let bare = trim(text);
    let document = parse_json(bare.as_str());
    stage_result_from_document(document.as_ref(), text, session_id, backend)
}

// What a response says

/// A status is read off its word alone: in any case, with white space around it, and from
/// nothing but the word.
pub proof fn law_statuses_are_read_by_their_words(
    a: Seq<char>,
    b: Seq<char>,
    status: Seq<char>,
    signal: StageSignal,
)
    requires
        crate::text_laws::blank(a),
        crate::text_laws::blank(b),
    ensures
        status_signal(status) == Some(signal) <==> uppered(trimmed(status)) == signal_word(signal),
        status_signal(a + signal_word(signal) + b) == Some(signal),
{
    law_status_words(signal);
    reveal_strlit("READY");
    reveal_strlit("DONE");
    reveal_strlit("TOO_LARGE");
    reveal_strlit("VERIFIED");
    reveal_strlit("RETRY");
    reveal_strlit("BLOCKED");
    reveal_strlit("REPLANNED");
    let w = signal_word(signal);
    crate::text_laws::law_what_is_white_space(w[0]);
    crate::text_laws::law_what_is_white_space(w.last());
    crate::text_laws::law_trimming_takes_off_white_space(a, w, b);
    crate::text::lemma_trimmed_bare(w);
    let word = uppered(trimmed(status));
    if word == w {
        assert(uppered(trimmed(w)) == w) by {
            lemma_uppered_same(w);
        }
    }
}

/// A terminal marker on a line of its own is read, in both of its spellings, and a line
/// without a marker says nothing.
pub proof fn law_markers_are_read(signal: StageSignal, line: Seq<char>)
    ensures
        line_signal("OPSX_STATUS: "@ + signal_word(signal)) == Some(signal),
        line_signal("OSPX_STATUS: "@ + signal_word(signal)) == Some(signal),
        line_signal(line) is Some ==> starts(trimmed(line), "OPSX_STATUS:"@) || starts(
            trimmed(line),
            "OSPX_STATUS:"@,
        ),
{
    reveal_strlit("OPSX_STATUS: ");
    reveal_strlit("OSPX_STATUS: ");
    reveal_strlit("OPSX_STATUS:");
    reveal_strlit("OSPX_STATUS:");
    reveal_strlit("READY");
    reveal_strlit("DONE");
    reveal_strlit("TOO_LARGE");
    reveal_strlit("VERIFIED");
    reveal_strlit("RETRY");
    reveal_strlit("BLOCKED");
    reveal_strlit("REPLANNED");
    let w = signal_word(signal);
    let value = seq![' '] + w;
    law_statuses_are_read_by_their_words(seq![' '], Seq::empty(), value, signal);
    assert(seq![' '] + w + Seq::<char>::empty() =~= value);
    let one = "OPSX_STATUS: "@ + w;
    let two = "OSPX_STATUS: "@ + w;
    assert(one =~= "OPSX_STATUS:"@ + value);
    assert(two =~= "OSPX_STATUS:"@ + value);
    crate::text::lemma_trimmed_bare(one);
    crate::text::lemma_trimmed_bare(two);
    crate::text_laws::law_prefixes_and_suffixes_come_off("OPSX_STATUS:"@, value);
    crate::text_laws::law_prefixes_and_suffixes_come_off("OSPX_STATUS:"@, value);
    assert(two[1] == 'S');
    if starts(two, "OPSX_STATUS:"@) {
        assert(two.subrange(0, 12)[1] == "OPSX_STATUS:"@[1]);
    }
}

/// A response without a marker on any of its lines gives no result, and one with a marker
/// gives one.
pub proof fn law_responses_without_markers_give_nothing(lines: Seq<Seq<char>>)
    ensures
        last_signal(lines) is None <==> forall|i: int|
            0 <= i < lines.len() ==> line_signal(#[trigger] lines[i]) is None,
    decreases lines.len(),
{
    if lines.len() > 0 {
        let rest = lines.drop_last();
        law_responses_without_markers_give_nothing(rest);
        assert(lines[lines.len() - 1] == lines.last());
        if last_signal(lines) is None {
            assert forall|i: int| 0 <= i < lines.len() implies line_signal(
                #[trigger] lines[i],
            ) is None by {
                if i < rest.len() {
                    assert(rest[i] == lines[i]);
                }
            }
        } else if forall|i: int|
            0 <= i < lines.len() ==> line_signal(#[trigger] lines[i]) is None {
            assert forall|i: int| 0 <= i < rest.len() implies line_signal(
                #[trigger] rest[i],
            ) is None by {
                assert(lines[i] == rest[i]);
            }
        }
    }
}

/// A structured result gives the status and the summary that it states; without one the
/// markers decide, and the summary is the whole text.
pub proof fn law_structured_results_are_read(document: Json, text: Seq<char>, status: Seq<char>)
    ensures
        text_in(crate::json::member(document, "opsx_status"@)) == Some(status) ==> structured_signal(
            Some(document),
        ) == status_signal(status),
        text_in(crate::json::member(document, "opsx_status"@)) == Some(status) && status_signal(
            status,
        ) is Some ==> response_signal(Some(document), text) == status_signal(status),
        text_in(crate::json::member(document, "summary"@)) == Some(status) ==> response_text(
            Some(document),
            text,
        ) == status,
        response_signal(None, text) == last_signal(lines_of(text)),
        response_text(None, text) == text,
{
}

/// The diagnostic for a response without a result begins with the message, and quotes a
/// response of one line: whole where it is short, and else its first characters.
pub proof fn law_missing_results_quote_the_response(message: Seq<char>, response: Seq<char>)
    requires
        crate::text_laws::unbroken(response),
        trimmed(response) == response,
    ensures
        missing_result(message, None) == message,
        message.is_prefix_of(missing_result(message, Some(response))),
        response.len() == 0 ==> missing_result(message, Some(response)) == message,
        0 < response.len() <= 320 ==> response.is_suffix_of(
            missing_result(message, Some(response)),
        ),
        response.len() > 320 ==> response.take(320).push('…').is_suffix_of(
            missing_result(message, Some(response)),
        ),
{
    reveal_strlit("\n");
    let m = missing_result(message, Some(response));
    let quoted = if response.len() > 320 {
        response.take(320).push('…')
    } else {
        response
    };
    assert forall|i: int| !#[trigger] occurs_at(quoted, "\n"@, i) by {
        if occurs_at(quoted, "\n"@, i) {
            assert(quoted.subrange(i, i + 1)[0] == quoted[i]);
            if i < 320 && i < response.len() {
                assert(quoted[i] == response[i]);
            }
        }
    }
    crate::text_laws::law_replacing_touches_nothing_else(quoted, "\n"@, " "@);
    assert(m.subrange(0, message.len() as int) =~= message);
    if response.len() > 0 {
        assert(m.subrange(m.len() - quoted.len(), m.len() as int) =~= quoted);
    }
}

} // verus!
