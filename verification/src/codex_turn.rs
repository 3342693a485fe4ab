//! A stage in the hands of the second harness: what the events of a turn and the wishes of
//! the viewer do to it, and how a turn that ended is followed by another.
use crate::backend::{
    is_missing_terminal_result, missing_result, no_terminal_message, response_signal, response_text,
    stage_result_from_text, AgentError, SessionId, SessionMode, SessionModeView, StageProtocol,
    StageResult,
};
use crate::codex::{
    completed_agent_text, completed_text, context_usage_report, is_text, usage_report,
};
use crate::codex_server::{thread_missing, CodexRequestError};
use crate::codex_stream::{all_well_formed, event_shown, CodexStream, ShownView};
use crate::effect::{ErrorView, ResultView};
use crate::json::{
    as_bool, as_items, as_text, bool_in, get_in, items_in, member, member_of, parsed_json, text_in,
    Json,
};
use crate::numeral::{decimal, decimal_text};
use crate::stream::{ControlView, ItemView, StreamControl, StreamFilter, StreamItem};
use crate::text::{
    cat2, cat3, cat4, chars_of, contains, contains_text, copy_option, equal, lowered, seen,
    seen_all, text_option, to_lower, trimmed,
};
use vstd::prelude::*;
use vstd::string::*;

verus! {

/// How long is waited before the first retry, in milliseconds.
pub const PROVIDER_RETRY_BASE_DELAY: u64 = 5_000;

/// How long is waited at most.
pub const PROVIDER_RETRY_MAX_DELAY: u64 = 30_000;

/// How often a turn without a terminal result is followed by another.
pub const MAX_INCOMPLETE_STAGE_RECOVERIES: u32 = 1;

/// Why a turn failed.
#[derive(Debug, Clone)]
pub struct CodexTurnError {
    pub message: String,
    pub transient: bool,
    pub output_limit: bool,
    pub requires_user_turn: bool,
}

pub struct TurnErrorView {
    pub message: Seq<char>,
    pub transient: bool,
    pub output_limit: bool,
    pub requires_user_turn: bool,
}

impl View for CodexTurnError {
    type V = TurnErrorView;

    open spec fn view(&self) -> TurnErrorView {
        TurnErrorView {
            message: self.message@,
            transient: self.transient,
            output_limit: self.output_limit,
            requires_user_turn: self.requires_user_turn,
        }
    }
}

/// Whether a message says that the limit on output tokens was reached.
pub open spec fn says_limit(low: Seq<char>) -> bool {
    contains_text(low, "max_output_tokens"@) || contains_text(low, "max output tokens"@)
        || contains_text(low, "output token limit"@) || contains_text(
        low,
        "maximum output tokens"@,
    )
}

/// Whether a message says that the failure will pass.
pub open spec fn says_transient(low: Seq<char>) -> bool {
    contains_text(low, "rate limit"@) || contains_text(low, "rate_limit"@) || contains_text(
        low,
        "overloaded"@,
    ) || contains_text(low, "temporarily unavailable"@) || contains_text(low, "timeout"@)
        || contains_text(low, "timed out"@) || contains_text(low, "connection reset"@)
        || contains_text(low, "network error"@) || contains_text(low, "429"@) || contains_text(
        low,
        "500"@,
    ) || contains_text(low, "502"@) || contains_text(low, "503"@) || contains_text(low, "504"@)
}

/// What a failure of a turn is, by its message.
pub open spec fn classified(message: Seq<char>) -> TurnErrorView {
    let low = lowered(message);
    TurnErrorView {
        message: "Codex turn failed: "@ + message,
        transient: says_transient(low),
        output_limit: says_limit(low),
        requires_user_turn: contains_text(
            low,
            "requests ending with a model turn are not supported"@,
        ),
    }
}

pub fn classify_turn_error(message: &str) -> (r: CodexTurnError)
    ensures
        r@ == classified(message@),
{
    let lowercase = to_lower(message);
    let low = lowercase.as_str();
    let output_limit = contains(low, "max_output_tokens") || contains(low, "max output tokens")
        || contains(low, "output token limit") || contains(low, "maximum output tokens");
    let transient = contains(low, "rate limit") || contains(low, "rate_limit") || contains(
        low,
        "overloaded",
    ) || contains(low, "temporarily unavailable") || contains(low, "timeout") || contains(
        low,
        "timed out",
    ) || contains(low, "connection reset") || contains(low, "network error") || contains(
        low,
        "429",
    ) || contains(low, "500") || contains(low, "502") || contains(low, "503") || contains(
        low,
        "504",
    );
    CodexTurnError {
        message: cat2("Codex turn failed: ", message),
        transient,
        output_limit,
        requires_user_turn: contains(low, "requests ending with a model turn are not supported"),
    }
}

/// Why a turn gave no result.
#[derive(Debug, Clone)]
pub enum TurnError {
    /// The turn failed.
    Turn(CodexTurnError),
    /// It came to nothing for another reason.
    Agent(AgentError),
}

pub enum TurnFailureView {
    Turn(TurnErrorView),
    Agent(ErrorView),
}

impl View for TurnError {
    type V = TurnFailureView;

    open spec fn view(&self) -> TurnFailureView {
        match self {
            TurnError::Turn(e) => TurnFailureView::Turn(e@),
            TurnError::Agent(e) => TurnFailureView::Agent(e@),
        }
    }
}

/// An interruption that the viewer asked for and that the harness has still to confirm.
#[derive(Debug, Clone, Copy, PartialEq, Eq, Structural)]
pub enum Pending {
    Compact,
    Context,
}

/// How a turn ended.
#[derive(Debug, Clone)]
pub enum TurnOutcome {
    Complete(StageResult),
    /// By an interruption, with the last report of the context.
    Control(Pending, Option<String>),
    Failed(TurnError),
}

pub enum OutcomeView {
    Complete(ResultView),
    Control(Pending, Option<Seq<char>>),
    Failed(TurnFailureView),
}

impl View for TurnOutcome {
    type V = OutcomeView;

    open spec fn view(&self) -> OutcomeView {
        match self {
            TurnOutcome::Complete(result) => OutcomeView::Complete(result@),
            TurnOutcome::Control(pending, report) => OutcomeView::Control(
                *pending,
                text_option(*report),
            ),
            TurnOutcome::Failed(e) => OutcomeView::Failed(e@),
        }
    }
}

/// A turn that goes on: the last message, the last report of the context, what the viewer
/// asked for, and what was shown.
#[derive(Debug, Clone)]
pub struct TurnState {
    pub response: String,
    pub context_report: Option<String>,
    pub pending: Option<Pending>,
    pub stream: CodexStream,
}

pub struct TurnStateView {
    pub response: Seq<char>,
    pub context_report: Option<Seq<char>>,
    pub pending: Option<Pending>,
    pub stream: ShownView,
}

impl View for TurnState {
    type V = TurnStateView;

    open spec fn view(&self) -> TurnStateView {
        TurnStateView {
            response: self.response@,
            context_report: text_option(self.context_report),
            pending: self.pending,
            stream: self.stream@,
        }
    }
}

/// What a turn asks for after something happened.
#[derive(Debug, Clone)]
pub struct TurnStep {
    /// What is shown.
    pub items: Vec<StreamItem>,
    /// Whether the harness is interrupted. What comes of that is not waited for.
    pub interrupt: bool,
    /// Whether what is shown of the turn ends, and how it went.
    pub finish: Option<bool>,
    /// How the turn ended, if it did.
    pub outcome: Option<TurnOutcome>,
}

pub struct TurnStepView {
    pub items: Seq<ItemView>,
    pub interrupt: bool,
    pub finish: Option<bool>,
    pub outcome: Option<OutcomeView>,
}

impl View for TurnStep {
    type V = TurnStepView;

    open spec fn view(&self) -> TurnStepView {
        TurnStepView {
            items: seen_all(self.items@),
            interrupt: self.interrupt,
            finish: self.finish,
            outcome: seen(self.outcome),
        }
    }
}

/// A step that asks for nothing.
pub open spec fn idle() -> TurnStepView {
    TurnStepView { items: Seq::empty(), interrupt: false, finish: None, outcome: None }
}

/// A step that ends a turn.
pub open spec fn ends_with_error(interrupt: bool, error: TurnFailureView) -> TurnStepView {
    TurnStepView {
        items: Seq::empty(),
        interrupt,
        finish: Some(false),
        outcome: Some(OutcomeView::Failed(error)),
    }
}

/// A failure for a reason that is only shown.
pub open spec fn plain_failure(message: Seq<char>) -> TurnFailureView {
    TurnFailureView::Agent(ErrorView::Other(message))
}

pub const SCHEMA_PROMPT_1: &'static str =
    "\n\nReturn the final stage result as a bare JSON object, without Markdown fences, matching this schema: ";

pub const SCHEMA_PROMPT_2: &'static str =
    ". If JSON is unavailable, finish with exactly one `OPSX_STATUS: <value>` line using an allowed status. A plain prose response without a stage status is not sufficient.";

/// What a turn is asked. A harness without structured output is told the schema.
pub open spec fn asked(prompt: Seq<char>, protocol: StageProtocol, structured: bool) -> Seq<char> {
    if structured {
        prompt
    } else {
        prompt + SCHEMA_PROMPT_1@ + protocol.schema() + SCHEMA_PROMPT_2@
    }
}

pub fn turn_prompt(prompt: &str, protocol: StageProtocol, structured_output: bool) -> (r: String)
    ensures
        r@ == asked(prompt@, protocol, structured_output),
{
    if structured_output {
        prompt.to_owned()
    } else {
        cat4(prompt, SCHEMA_PROMPT_1, protocol.json_schema(), SCHEMA_PROMPT_2)
    }
}

/// A member of what an event is about.
pub open spec fn param(event: Json, key: Seq<char>) -> Option<Json> {
    member_of(member(event, "params"@), key)
}

/// The turn that an event is about, if it says so.
pub open spec fn event_turn(event: Json) -> Option<Seq<char>> {
    match param(event, "turnId"@) {
        Some(id) => text_in(Some(id)),
        None => text_in(member_of(param(event, "turn"@), "id"@)),
    }
}

/// Whether an event is about this conversation, and about no other turn of it.
pub open spec fn concerns(event: Json, session: Seq<char>, turn: Seq<char>) -> bool {
    text_in(param(event, "threadId"@)) == Some(session) && (event_turn(event) is None
        || event_turn(event) == Some(turn))
}

/// Whether an event reports a failure of this turn that is not tried again.
pub open spec fn fatal(event: Json, turn: Seq<char>) -> bool {
    text_in(member(event, "method"@)) == Some("error"@) && text_in(param(event, "turnId"@))
        == Some(turn) && bool_in(param(event, "willRetry"@)) != Some(true)
}

/// Whether an event says that this turn is over.
pub open spec fn concludes(event: Json, turn: Seq<char>) -> bool {
    text_in(member(event, "method"@)) == Some("turn/completed"@) && text_in(
        member_of(param(event, "turn"@), "id"@),
    ) == Some(turn)
}

/// The last message among the items of a turn.
pub open spec fn last_message(items: Seq<Json>) -> Option<Seq<char>>
    decreases items.len(),
{
    if items.len() == 0 {
        None
    } else if text_in(member(items.last(), "type"@)) == Some("agentMessage"@) && text_in(
        member(items.last(), "text"@),
    ) is Some {
        text_in(member(items.last(), "text"@))
    } else {
        last_message(items.drop_last())
    }
}

/// The response of a turn that is over: the last message that was reported, or the last
/// among its items.
pub open spec fn final_response(response: Seq<char>, event: Json) -> Seq<char> {
    if response.len() > 0 {
        response
    } else {
        match items_in(member_of(param(event, "turn"@), "items"@)) {
            Some(items) => match last_message(items) {
                Some(text) => text,
                None => ""@,
            },
            None => ""@,
        }
    }
}

/// The result of a response, given the document that it is, if it is one.
pub open spec fn response_outcome(
    document: Option<Json>,
    response: Seq<char>,
    session: Seq<char>,
) -> OutcomeView {
    match response_signal(document, response) {
        Some(signal) => OutcomeView::Complete(
            ResultView { text: response_text(document, response), session_id: Some(session), signal },
        ),
        None => OutcomeView::Failed(
            TurnFailureView::Agent(
                ErrorView::MissingTerminal(
                    missing_result(no_terminal_message("Codex"@), Some(response)),
                ),
            ),
        ),
    }
}

/// How a turn that is over ended.
pub open spec fn concluded(s: TurnStateView, event: Json, session: Seq<char>) -> OutcomeView {
    let status = match text_in(member_of(param(event, "turn"@), "status"@)) {
        Some(status) => status,
        None => "failed"@,
    };
    let response = final_response(s.response, event);
    match s.pending {
        Some(pending) => OutcomeView::Control(pending, s.context_report),
        None => if status != "completed"@ {
            OutcomeView::Failed(
                TurnFailureView::Turn(
                    classified(
                        match text_in(
                            member_of(
                                member_of(param(event, "turn"@), "error"@),
                                "message"@,
                            ),
                        ) {
                            Some(message) => message,
                            None => "Codex turn did not complete"@,
                        },
                    ),
                ),
            )
        } else {
            response_outcome(parsed_json(trimmed(response)), response, session)
        },
    }
}

/// A turn after an event of it was taken in.
pub open spec fn taken_in(s: TurnStateView, event: Json, filter: Option<StreamFilter>) -> (
    TurnStateView,
    Seq<ItemView>,
) {
    let shown = match filter {
        Some(filter) => event_shown(s.stream, event, filter),
        None => (s.stream, Seq::empty()),
    };
    (
        TurnStateView {
            response: match completed_text(event) {
                Some(text) => text,
                None => s.response,
            },
            context_report: match usage_report(event) {
                Some(report) => Some(report),
                None => s.context_report,
            },
            pending: s.pending,
            stream: shown.0,
        },
        shown.1,
    )
}

/// What an event does to a turn. Input that only a person can give ends it.
pub open spec fn after_event(
    s: TurnStateView,
    event: Json,
    session: Seq<char>,
    turn: Seq<char>,
    filter: Option<StreamFilter>,
) -> (TurnStateView, TurnStepView) {
    let method = text_in(member(event, "method"@));
    if member(event, "id"@) is Some && method is Some {
        (
            s,
            ends_with_error(
                true,
                plain_failure(
                    "Codex requested unsupported interactive client input through `"@ + method->0
                        + "` during an unattended stage"@,
                ),
            ),
        )
    } else if !concerns(event, session, turn) {
        (s, idle())
    } else if fatal(event, turn) {
        (
            s,
            ends_with_error(
                false,
                TurnFailureView::Turn(
                    classified(
                        match text_in(member_of(param(event, "error"@), "message"@)) {
                            Some(message) => message,
                            None => "Codex turn failed"@,
                        },
                    ),
                ),
            ),
        )
    } else {
        let next = taken_in(s, event, filter);
        if concludes(event, turn) {
            (
                next.0,
                TurnStepView {
                    items: next.1,
                    interrupt: false,
                    finish: Some(s.pending is None),
                    outcome: Some(concluded(next.0, event, session)),
                },
            )
        } else {
            (next.0, TurnStepView { items: next.1, ..idle() })
        }
    }
}

impl TurnState {
    /// A turn that begins.
    pub fn new() -> (r: TurnState)
        ensures
            r@ == (TurnStateView {
                response: Seq::empty(),
                context_report: None,
                pending: None,
                stream: ShownView { summaries: Seq::empty(), started: Seq::empty() },
            }),
            all_well_formed(r@.stream.summaries),
    {
        proof {
            reveal_strlit("");
        }
        let r = TurnState {
            response: "".to_owned(),
            context_report: None,
            pending: None,
            stream: CodexStream::new(),
        };
        assert(r@.response =~= Seq::empty());
        r
    }

    fn take_in(&mut self, event: &Json, filter: Option<StreamFilter>) -> (r: Vec<StreamItem>)
        requires
            all_well_formed(old(self)@.stream.summaries),
        ensures
            (final(self)@, seen_all(r@)) == taken_in(old(self)@, *event, filter),
            all_well_formed(final(self)@.stream.summaries),
    {
        if let Some(report) = context_usage_report(event) {
            self.context_report = Some(report);
        }
        if let Some(text) = completed_agent_text(event) {
            self.response = text.to_owned();
        }
        match filter {
            Some(filter) => self.stream.filter_event(event, filter),
            None => {
                let none: Vec<StreamItem> = Vec::new();
                assert(seen_all(none@) =~= Seq::empty());
                none
            },
        }
    }

    fn conclude(&self, event: &Json, session_id: &SessionId) -> (r: TurnOutcome)
        ensures
            r@ == concluded(self@, *event, session_id@),
    {
        if let Some(pending) = self.pending {
            return TurnOutcome::Control(pending, copy_option(&self.context_report));
        }
        let turn = get_in(event.get("params"), "turn");
        let status = match as_text(get_in(turn, "status")) {
            Some(status) => status,
            None => "failed",
        };
        if !equal(status, "completed") {
            let message = match as_text(get_in(get_in(turn, "error"), "message")) {
                Some(message) => message,
                None => "Codex turn did not complete",
            };
            return TurnOutcome::Failed(TurnError::Turn(classify_turn_error(message)));
        }
        let response = if chars_of(self.response.as_str()).len() > 0 {
            self.response.clone()
        } else {
            match as_items(get_in(turn, "items")) {
                Some(items) => match find_last_message(items) {
                    Some(text) => text,
                    None => "".to_owned(),
                },
                None => "".to_owned(),
            }
        };
        match stage_result_from_text(
            response.as_str(),
            Some(session_id.as_str().to_owned()),
            "Codex",
        ) {
            Ok(result) => TurnOutcome::Complete(result),
            Err(result) => TurnOutcome::Failed(
                TurnError::Agent(AgentError::MissingTerminal { result }),
            ),
        }
    }

    /// Takes an event in.
    pub fn on_event(
        &mut self,
        event: &Json,
        session_id: &SessionId,
        turn_id: &str,
        filter: Option<StreamFilter>,
    ) -> (r: TurnStep)
        requires
            all_well_formed(old(self)@.stream.summaries),
        ensures
            (final(self)@, r@) == after_event(old(self)@, *event, session_id@, turn_id@, filter),
            all_well_formed(final(self)@.stream.summaries),
    {
        let params = event.get("params");
        if event.get("id").is_some() {
            if let Some(method) = as_text(event.get("method")) {
                return failed_step(
                    true,
                    other_error(
                        cat3(
                            "Codex requested unsupported interactive client input through `",
                            method,
                            "` during an unattended stage",
                        ),
                    ),
                );
            }
        }
        let about = match get_in(params, "turnId") {
            Some(id) => as_text(Some(id)),
            None => as_text(get_in(get_in(params, "turn"), "id")),
        };
        let same_turn = match about {
            Some(id) => equal(id, turn_id),
            None => true,
        };
        if !is_text(get_in(params, "threadId"), session_id.as_str()) || !same_turn {
            return idle_step();
        }
        let retried = match as_bool(get_in(params, "willRetry")) {
            Some(flag) => flag,
            None => false,
        };
        if is_text(event.get("method"), "error") && is_text(get_in(params, "turnId"), turn_id)
            && !retried {
            let message = match as_text(get_in(get_in(params, "error"), "message")) {
                Some(message) => message,
                None => "Codex turn failed",
            };
            return failed_step(false, TurnError::Turn(classify_turn_error(message)));
        }
        let clean = self.pending.is_none();
        let items = self.take_in(event, filter);
        if is_text(event.get("method"), "turn/completed") && is_text(
            get_in(get_in(params, "turn"), "id"),
            turn_id,
        ) {
            let outcome = self.conclude(event, session_id);
            return TurnStep { items, interrupt: false, finish: Some(clean), outcome: Some(outcome) };
        }
        TurnStep { items, interrupt: false, finish: None, outcome: None }
    }
}

fn find_last_message(items: &Vec<Json>) -> (r: Option<String>)
    ensures
        text_option(r) == last_message(items@),
{
    let mut i: usize = items.len();
    assert(items@.take(i as int) =~= items@);
    while i > 0
        invariant
            i <= items@.len(),
            last_message(items@) == last_message(items@.take(i as int)),
        decreases i,
    {
        proof {
            let upto = items@.take(i as int);
            assert(upto.last() == items@[i - 1]);
            assert(upto.drop_last() =~= items@.take(i - 1));
        }
        if is_text(items[i - 1].get("type"), "agentMessage") {
            if let Some(text) = as_text(items[i - 1].get("text")) {
                return Some(text.to_owned());
            }
        }
        i -= 1;
    }
    None
}

fn idle_step() -> (r: TurnStep)
    ensures
        r@ == idle(),
{
    let items: Vec<StreamItem> = Vec::new();
    assert(seen_all(items@) =~= Seq::empty());
    TurnStep { items, interrupt: false, finish: None, outcome: None }
}

fn failed_step(interrupt: bool, error: TurnError) -> (r: TurnStep)
    ensures
        r@ == ends_with_error(interrupt, error@),
{
    let items: Vec<StreamItem> = Vec::new();
    assert(seen_all(items@) =~= Seq::empty());
    TurnStep { items, interrupt, finish: Some(false), outcome: Some(TurnOutcome::Failed(error)) }
}

fn other_error(message: String) -> (r: TurnError)
    ensures
        r@ == plain_failure(message@),
{
    TurnError::Agent(AgentError::Other { message })
}

/// What is said of a stage that took too long, whose bound is in milliseconds.
pub open spec fn overdue(limit: u64) -> Seq<char> {
    "local worker exceeded its "@ + decimal((limit / 60_000) as nat) + " minute stage timeout"@
}

/// Ends a turn that took too long.
pub fn on_timeout(limit: u64) -> (r: TurnStep)
    ensures
        r@ == ends_with_error(
            true,
            TurnFailureView::Agent(ErrorView::Escalation(overdue(limit))),
        ),
{
    let minutes = decimal_text(limit / 60_000);
    let reason = cat3("local worker exceeded its ", minutes.as_str(), " minute stage timeout");
    failed_step(true, TurnError::Agent(AgentError::Escalation { reason }))
}

/// Whether a turn has taken too long.
pub fn timed_out(limit: Option<u64>, elapsed: u64) -> (r: bool)
    ensures
        r == (limit is Some && elapsed >= limit->0),
{
    match limit {
        Some(limit) => elapsed >= limit,
        None => false,
    }
}

/// What the viewer's wish asks for.
#[derive(Debug, Clone)]
pub enum ControlStep {
    /// Nothing.
    Ignore,
    /// A message is handed to the turn, and then said to be sent.
    Steer(String),
    /// The viewer is warned.
    Warn(&'static str),
    /// The turn is interrupted, and only once that is confirmed the viewer is told so and
    /// the wish is remembered.
    Interrupt(Pending, &'static str),
    /// The turn ends.
    Stop(TurnStep),
}

pub enum ControlStepView {
    Ignore,
    Steer(Seq<char>),
    Warn(Seq<char>),
    Interrupt(Pending, Seq<char>),
    Stop(TurnStepView),
}

impl View for ControlStep {
    type V = ControlStepView;

    open spec fn view(&self) -> ControlStepView {
        match self {
            ControlStep::Ignore => ControlStepView::Ignore,
            ControlStep::Steer(message) => ControlStepView::Steer(message@),
            ControlStep::Warn(message) => ControlStepView::Warn(message@),
            ControlStep::Interrupt(pending, message) => ControlStepView::Interrupt(
                *pending,
                message@,
            ),
            ControlStep::Stop(step) => ControlStepView::Stop(step@),
        }
    }
}

pub const STEERED: &'static str = "Steering instruction sent to the active Codex turn";

pub const COMPACTING: &'static str =
    "Codex acknowledged the compact request; waiting for active work to stop";

pub const REPORTING: &'static str =
    "Codex acknowledged the context request; waiting for active work to stop";

pub const BUSY: &'static str = "Another interrupting command is already in progress";

/// What the viewer's wish comes to in a turn. Only one interruption is under way at a time.
pub open spec fn after_control(pending: Option<Pending>, control: ControlView) -> ControlStepView {
    match control {
        ControlView::Idle => ControlStepView::Ignore,
        ControlView::Inject(message) => ControlStepView::Steer(message),
        ControlView::Compact => if pending is Some {
            ControlStepView::Warn(BUSY@)
        } else {
            ControlStepView::Interrupt(Pending::Compact, COMPACTING@)
        },
        ControlView::Context => if pending is Some {
            ControlStepView::Warn(BUSY@)
        } else {
            ControlStepView::Interrupt(Pending::Context, REPORTING@)
        },
        ControlView::Pause => ControlStepView::Stop(
            ends_with_error(true, TurnFailureView::Agent(ErrorView::Pause)),
        ),
        ControlView::Escalate => ControlStepView::Stop(
            ends_with_error(
                true,
                TurnFailureView::Agent(
                    ErrorView::Escalation("frontier assistance requested from the terminal"@),
                ),
            ),
        ),
        ControlView::Interrupt => ControlStepView::Stop(
            ends_with_error(true, plain_failure("Codex turn interrupted by user"@)),
        ),
    }
}

/// Decides what the viewer's wish comes to.
pub fn on_control(pending: Option<Pending>, control: StreamControl) -> (r: ControlStep)
    ensures
        r@ == after_control(pending, control@),
{
    match control {
        StreamControl::Idle => ControlStep::Ignore,
        StreamControl::Inject(message) => ControlStep::Steer(message),
        StreamControl::Compact => if pending.is_some() {
            ControlStep::Warn(BUSY)
        } else {
            ControlStep::Interrupt(Pending::Compact, COMPACTING)
        },
        StreamControl::Context => if pending.is_some() {
            ControlStep::Warn(BUSY)
        } else {
            ControlStep::Interrupt(Pending::Context, REPORTING)
        },
        StreamControl::Pause => ControlStep::Stop(
            failed_step(true, TurnError::Agent(AgentError::Pause)),
        ),
        StreamControl::Escalate => ControlStep::Stop(
            failed_step(
                true,
                TurnError::Agent(
                    AgentError::Escalation {
                        reason: "frontier assistance requested from the terminal".to_owned(),
                    },
                ),
            ),
        ),
        StreamControl::Interrupt => ControlStep::Stop(
            failed_step(true, other_error("Codex turn interrupted by user".to_owned())),
        ),
    }
}

pub const CONTINUE_1: &'static str =
    " Continue the same opsx-build phase in this Codex thread from its durable repository and OpenSpec state. Preserve correct partial work, do not restart completed tasks or create a duplicate change, and finish the outstanding work now. Return the required structured result with `opsx_status` set to one of: ";

/// What a turn is asked that goes on with a phase.
pub open spec fn continuing(protocol: StageProtocol, reason: Seq<char>) -> Seq<char> {
    reason + CONTINUE_1@ + protocol.values() + "."@
}

pub fn continuation_prompt(protocol: StageProtocol, reason: &str) -> (r: String)
    ensures
        r@ == continuing(protocol, reason@),
{
    cat4(reason, CONTINUE_1, protocol.terminal_values(), ".")
}

pub const RESUME_WORK: &'static str =
    "The preceding turn ended without returning a terminal result. Inspect the durable OpenSpec and working-tree state, then continue from the first incomplete task. Perform outstanding work with actual tools; do not merely describe what you intend to do. Do not stop at a progress update.";

pub const RESUME_VERIFICATION: &'static str =
    "The preceding verification turn ended without returning a terminal result. Continue verification only: do not repair or modify agendas, OpenSpec artifacts, implementation, or tests. If you created temporary diagnostic artifacts, remove only those artifacts where safe. If you found a concrete correctable issue, return RETRY with the exact finding and required repair; otherwise finish verification and return VERIFIED or BLOCKED as appropriate.";

/// Whether a turn of a stage without a terminal result is followed by another.
pub open spec fn recoverable(protocol: StageProtocol) -> bool {
    protocol == StageProtocol::Worker || protocol == StageProtocol::Verify
}

/// What a turn is asked that follows one without a terminal result.
pub open spec fn resuming(protocol: StageProtocol) -> Seq<char> {
    continuing(
        protocol,
        if protocol == StageProtocol::Verify {
            RESUME_VERIFICATION@
        } else {
            RESUME_WORK@
        },
    )
}

pub fn incomplete_stage_continuation_prompt(protocol: StageProtocol) -> (r: String)
    requires
        recoverable(protocol),
    ensures
        r@ == resuming(protocol),
{
    if protocol == StageProtocol::Verify {
        continuation_prompt(protocol, RESUME_VERIFICATION)
    } else {
        continuation_prompt(protocol, RESUME_WORK)
    }
}

/// A time doubled again and again.
pub open spec fn doubled(base: nat, times: nat) -> nat
    decreases times,
{
    if times == 0 {
        base
    } else {
        2 * doubled(base, (times - 1) as nat)
    }
}

/// How long is waited before a retry, in milliseconds: twice as long each time, up to a
/// bound.
pub open spec fn retry_delay(base: u64, attempt: u32) -> u64 {
    let times = if attempt == 0 {
        0
    } else {
        (attempt - 1) as nat
    };
    if doubled(base as nat, times) > PROVIDER_RETRY_MAX_DELAY {
        PROVIDER_RETRY_MAX_DELAY
    } else {
        doubled(base as nat, times) as u64
    }
}

proof fn lemma_doubled_grows(base: nat, a: nat, b: nat)
    requires
        a <= b,
    ensures
        doubled(base, a) <= doubled(base, b),
    decreases b,
{
    if a < b {
        lemma_doubled_grows(base, a, (b - 1) as nat);
    }
}

proof fn lemma_doubled_zero(times: nat)
    ensures
        doubled(0, times) == 0,
    decreases times,
{
    if times > 0 {
        lemma_doubled_zero((times - 1) as nat);
    }
}

pub fn provider_retry_delay(base: u64, attempt: u32) -> (r: u64)
    ensures
        r == retry_delay(base, attempt),
{
    let times: u32 = if attempt == 0 {
        0
    } else {
        attempt - 1
    };
    let mut delay: u64 = base;
    let mut done: u32 = 0;
    if base == 0 {
        proof {
            lemma_doubled_zero(times as nat);
        }
        return 0;
    }
    while done < times && delay <= PROVIDER_RETRY_MAX_DELAY
        invariant
            done <= times,
            delay == doubled(base as nat, done as nat),
        decreases times - done,
    {
        delay = delay * 2;
        done += 1;
    }
    proof {
        lemma_doubled_grows(base as nat, done as nat, times as nat);
    }
    if delay > PROVIDER_RETRY_MAX_DELAY {
        PROVIDER_RETRY_MAX_DELAY
    } else {
        delay
    }
}

/// The waits grow with the attempts, and none is longer than the bound.
pub proof fn law_retry_delays_grow_to_a_bound(base: u64, attempt: u32)
    requires
        attempt < u32::MAX,
    ensures
        retry_delay(base, attempt) <= retry_delay(base, (attempt + 1) as u32)
            <= PROVIDER_RETRY_MAX_DELAY,
{
    let a = if attempt == 0 {
        0
    } else {
        (attempt - 1) as nat
    };
    lemma_doubled_grows(base as nat, a, attempt as nat);
}

/// How often each kind of trouble is recovered from.
#[derive(Debug, Clone, Copy, PartialEq, Eq, Structural)]
pub struct RetryLimits {
    pub output: u32,
    pub provider: u32,
    pub base_delay: u64,
}

/// A phase in the hands of the harness: what its next turn is asked, and how often each kind
/// of trouble was recovered from.
#[derive(Debug, Clone)]
pub struct Phase {
    pub prompt: String,
    pub activity: String,
    pub output_recoveries: u32,
    pub incomplete_recoveries: u32,
    pub provider_retries: u32,
}

pub struct PhaseView {
    pub prompt: Seq<char>,
    pub activity: Seq<char>,
    pub output_recoveries: u32,
    pub incomplete_recoveries: u32,
    pub provider_retries: u32,
}

impl View for Phase {
    type V = PhaseView;

    open spec fn view(&self) -> PhaseView {
        PhaseView {
            prompt: self.prompt@,
            activity: self.activity@,
            output_recoveries: self.output_recoveries,
            incomplete_recoveries: self.incomplete_recoveries,
            provider_retries: self.provider_retries,
        }
    }
}

/// What is done before the next turn.
#[derive(Debug, Clone)]
pub enum Between {
    /// The conversation is compacted, and that is shown.
    Compact(String),
    /// Something is shown.
    Show(String),
    /// The viewer is warned.
    Warn(String),
    /// The viewer is warned, and some milliseconds are waited.
    WarnAndWait(String, u64),
}

pub enum BetweenView {
    Compact(Seq<char>),
    Show(Seq<char>),
    Warn(Seq<char>),
    WarnAndWait(Seq<char>, u64),
}

impl View for Between {
    type V = BetweenView;

    open spec fn view(&self) -> BetweenView {
        match self {
            Between::Compact(text) => BetweenView::Compact(text@),
            Between::Show(text) => BetweenView::Show(text@),
            Between::Warn(text) => BetweenView::Warn(text@),
            Between::WarnAndWait(text, delay) => BetweenView::WarnAndWait(text@, *delay),
        }
    }
}

/// What follows a turn.
#[derive(Debug, Clone)]
pub enum PhaseStep {
    Done(StageResult),
    Failed(TurnError),
    Again(Between, Phase),
}

pub enum PhaseStepView {
    Done(ResultView),
    Failed(TurnFailureView),
    Again(BetweenView, PhaseView),
}

impl View for PhaseStep {
    type V = PhaseStepView;

    open spec fn view(&self) -> PhaseStepView {
        match self {
            PhaseStep::Done(result) => PhaseStepView::Done(result@),
            PhaseStep::Failed(e) => PhaseStepView::Failed(e@),
            PhaseStep::Again(between, phase) => PhaseStepView::Again(between@, phase@),
        }
    }
}

/// A count of its limit.
pub open spec fn of_limit(count: int, limit: u32) -> Seq<char> {
    decimal(count as nat) + "/"@ + decimal(limit as nat) + ")"@
}

fn of_limit_text(count: u32, limit: u32) -> (r: String)
    ensures
        r@ == of_limit(count as int, limit),
{
    let a = decimal_text(count as u64);
    let b = decimal_text(limit as u64);
    cat4(a.as_str(), "/", b.as_str(), ")")
}

pub const OUT_OF_TIME: &'static str =
    "transient provider failure could not be retried before the stage timeout";

/// What follows a turn that the viewer interrupted.
pub open spec fn after_interruption(
    s: PhaseView,
    pending: Pending,
    report: Option<Seq<char>>,
    session: Seq<char>,
    activity: Seq<char>,
    protocol: StageProtocol,
) -> PhaseStepView {
    match pending {
        Pending::Compact => PhaseStepView::Again(
            BetweenView::Compact("Codex compacted thread "@ + session),
            PhaseView {
                prompt: continuing(
                    protocol,
                    "The operator compacted this Codex thread while the phase was active."@,
                ),
                activity: activity + " (after compaction)"@,
                ..s
            },
        ),
        Pending::Context => PhaseStepView::Again(
            BetweenView::Show(
                match report {
                    Some(report) => report,
                    None => "Codex has not reported token usage for this turn yet"@,
                },
            ),
            PhaseView {
                prompt: continuing(
                    protocol,
                    "The operator interrupted the turn to inspect its context usage."@,
                ),
                activity: activity + " (after context report)"@,
                ..s
            },
        ),
    }
}

/// What follows a turn that failed: a turn after the limit on output tokens, then one for a
/// provider that asks for it, then one after a wait, each as long as its limit lasts.
pub open spec fn after_turn_error(
    s: PhaseView,
    e: TurnErrorView,
    activity: Seq<char>,
    protocol: StageProtocol,
    limits: RetryLimits,
    remaining: Option<u64>,
) -> PhaseStepView {
    let delay = retry_delay(limits.base_delay, (s.provider_retries + 1) as u32);
    let recovery = activity + " (provider recovery "@ + of_limit(
        s.provider_retries + 1,
        limits.provider,
    );
    if e.output_limit && s.output_recoveries < limits.output {
        PhaseStepView::Again(
            BetweenView::Warn(
                "Codex reached its output token limit; continuing the same phase ("@ + of_limit(
                    s.output_recoveries + 1,
                    limits.output,
                ),
            ),
            PhaseView {
                prompt: continuing(
                    protocol,
                    "The preceding turn reached its output token limit."@,
                ),
                activity: activity + " (output-limit continuation "@ + of_limit(
                    s.output_recoveries + 1,
                    limits.output,
                ),
                output_recoveries: (s.output_recoveries + 1) as u32,
                ..s
            },
        )
    } else if e.requires_user_turn && s.provider_retries < limits.provider {
        PhaseStepView::Again(
            BetweenView::Warn(
                "Codex provider requires a user turn; continuing the same thread ("@ + of_limit(
                    s.provider_retries + 1,
                    limits.provider,
                ),
            ),
            PhaseView {
                prompt: continuing(
                    protocol,
                    "The provider rejected a request ending with an assistant message. This user message supplies the required continuation."@,
                ),
                activity: recovery,
                provider_retries: (s.provider_retries + 1) as u32,
                ..s
            },
        )
    } else if e.transient && s.provider_retries < limits.provider {
        if remaining is Some && delay >= remaining->0 {
            PhaseStepView::Failed(plain_failure(OUT_OF_TIME@ + ": "@ + e.message))
        } else {
            PhaseStepView::Again(
                BetweenView::WarnAndWait(
                    "Transient Codex provider failure; retrying the same thread in "@ + decimal(
                        (delay / 1_000) as nat,
                    ) + " second(s) ("@ + of_limit(s.provider_retries + 1, limits.provider),
                    delay,
                ),
                PhaseView {
                    prompt: continuing(
                        protocol,
                        "The preceding turn was interrupted by a transient provider or network failure."@,
                    ),
                    activity: recovery,
                    provider_retries: (s.provider_retries + 1) as u32,
                    ..s
                },
            )
        }
    } else {
        PhaseStepView::Failed(TurnFailureView::Turn(e))
    }
}

/// What follows a turn.
pub open spec fn followed(
    s: PhaseView,
    outcome: OutcomeView,
    session: Seq<char>,
    activity: Seq<char>,
    protocol: StageProtocol,
    limits: RetryLimits,
    remaining: Option<u64>,
) -> PhaseStepView {
    match outcome {
        OutcomeView::Complete(result) => PhaseStepView::Done(result),
        OutcomeView::Control(pending, report) => after_interruption(
            s,
            pending,
            report,
            session,
            activity,
            protocol,
        ),
        OutcomeView::Failed(TurnFailureView::Turn(e)) => after_turn_error(
            s,
            e,
            activity,
            protocol,
            limits,
            remaining,
        ),
        OutcomeView::Failed(TurnFailureView::Agent(e)) => if e is MissingTerminal && recoverable(
            protocol,
        ) && s.incomplete_recoveries < MAX_INCOMPLETE_STAGE_RECOVERIES {
            PhaseStepView::Again(
                BetweenView::Warn(
                    "Codex ended the phase without a terminal result; continuing the same session once"@,
                ),
                PhaseView {
                    prompt: resuming(protocol),
                    activity: activity + " (incomplete-turn recovery "@ + of_limit(
                        s.incomplete_recoveries + 1,
                        MAX_INCOMPLETE_STAGE_RECOVERIES,
                    ),
                    incomplete_recoveries: (s.incomplete_recoveries + 1) as u32,
                    ..s
                },
            )
        } else {
            PhaseStepView::Failed(TurnFailureView::Agent(e))
        },
    }
}

/// A phase that begins.
pub fn begin_phase(prompt: &str, activity: &str) -> (r: Phase)
    ensures
        r@ == (PhaseView {
            prompt: prompt@,
            activity: activity@,
            output_recoveries: 0,
            incomplete_recoveries: 0,
            provider_retries: 0,
        }),
{
    Phase {
        prompt: prompt.to_owned(),
        activity: activity.to_owned(),
        output_recoveries: 0,
        incomplete_recoveries: 0,
        provider_retries: 0,
    }
}

fn turn_failed(
    phase: &Phase,
    error: CodexTurnError,
    activity: &str,
    protocol: StageProtocol,
    limits: RetryLimits,
    remaining: Option<u64>,
) -> (r: PhaseStep)
    ensures
        r@ == after_turn_error(phase@, error@, activity@, protocol, limits, remaining),
{
    if error.output_limit && phase.output_recoveries < limits.output {
        let count: u32 = phase.output_recoveries + 1;
        let tally = of_limit_text(count, limits.output);
        let warning = cat2(
            "Codex reached its output token limit; continuing the same phase (",
            tally.as_str(),
        );
        return PhaseStep::Again(
            Between::Warn(warning),
            Phase {
                prompt: continuation_prompt(
                    protocol,
                    "The preceding turn reached its output token limit.",
                ),
                activity: cat3(activity, " (output-limit continuation ", tally.as_str()),
                output_recoveries: count,
                incomplete_recoveries: phase.incomplete_recoveries,
                provider_retries: phase.provider_retries,
            },
        );
    }
    if (error.requires_user_turn || error.transient) && phase.provider_retries < limits.provider {
        let count: u32 = phase.provider_retries + 1;
        let tally = of_limit_text(count, limits.provider);
        let recovery = cat3(activity, " (provider recovery ", tally.as_str());
        if error.requires_user_turn {
            let warning = cat2(
                "Codex provider requires a user turn; continuing the same thread (",
                tally.as_str(),
            );
            return PhaseStep::Again(
                Between::Warn(warning),
                Phase {
                    prompt: continuation_prompt(
                        protocol,
                        "The provider rejected a request ending with an assistant message. This user message supplies the required continuation.",
                    ),
                    activity: recovery,
                    output_recoveries: phase.output_recoveries,
                    incomplete_recoveries: phase.incomplete_recoveries,
                    provider_retries: count,
                },
            );
        }
        let delay = provider_retry_delay(limits.base_delay, count);
        let late = match remaining {
            Some(remaining) => delay >= remaining,
            None => false,
        };
        if late {
            return PhaseStep::Failed(
                other_error(cat3(OUT_OF_TIME, ": ", error.message.as_str())),
            );
        }
        let seconds = decimal_text(delay / 1_000);
        let warning = cat4(
            "Transient Codex provider failure; retrying the same thread in ",
            seconds.as_str(),
            " second(s) (",
            tally.as_str(),
        );
        return PhaseStep::Again(
            Between::WarnAndWait(warning, delay),
            Phase {
                prompt: continuation_prompt(
                    protocol,
                    "The preceding turn was interrupted by a transient provider or network failure.",
                ),
                activity: recovery,
                output_recoveries: phase.output_recoveries,
                incomplete_recoveries: phase.incomplete_recoveries,
                provider_retries: count,
            },
        );
    }
    PhaseStep::Failed(TurnError::Turn(error))
}

/// Decides what follows a turn. `remaining` is how long the stage may still take.
pub fn after_turn(
    phase: &Phase,
    outcome: TurnOutcome,
    session_id: &SessionId,
    activity: &str,
    protocol: StageProtocol,
    limits: RetryLimits,
    remaining: Option<u64>,
) -> (r: PhaseStep)
    ensures
        r@ == followed(
            phase@,
            outcome@,
            session_id@,
            activity@,
            protocol,
            limits,
            remaining,
        ),
{
    match outcome {
        TurnOutcome::Complete(result) => PhaseStep::Done(result),
        TurnOutcome::Control(pending, report) => match pending {
            Pending::Compact => PhaseStep::Again(
                Between::Compact(cat2("Codex compacted thread ", session_id.as_str())),
                Phase {
                    prompt: continuation_prompt(
                        protocol,
                        "The operator compacted this Codex thread while the phase was active.",
                    ),
                    activity: cat2(activity, " (after compaction)"),
                    output_recoveries: phase.output_recoveries,
                    incomplete_recoveries: phase.incomplete_recoveries,
                    provider_retries: phase.provider_retries,
                },
            ),
            Pending::Context => {
                let shown = match report {
                    Some(report) => report,
                    None => "Codex has not reported token usage for this turn yet".to_owned(),
                };
                PhaseStep::Again(
                    Between::Show(shown),
                    Phase {
                        prompt: continuation_prompt(
                            protocol,
                            "The operator interrupted the turn to inspect its context usage.",
                        ),
                        activity: cat2(activity, " (after context report)"),
                        output_recoveries: phase.output_recoveries,
                        incomplete_recoveries: phase.incomplete_recoveries,
                        provider_retries: phase.provider_retries,
                    },
                )
            },
        },
        TurnOutcome::Failed(TurnError::Turn(error)) => turn_failed(
            phase,
            error,
            activity,
            protocol,
            limits,
            remaining,
        ),
        TurnOutcome::Failed(TurnError::Agent(error)) => {
            if is_missing_terminal_result(&error) && (protocol == StageProtocol::Worker || protocol
                == StageProtocol::Verify) && phase.incomplete_recoveries
                < MAX_INCOMPLETE_STAGE_RECOVERIES {
                let count: u32 = phase.incomplete_recoveries + 1;
                let tally = of_limit_text(count, MAX_INCOMPLETE_STAGE_RECOVERIES);
                return PhaseStep::Again(
                    Between::Warn(
                        "Codex ended the phase without a terminal result; continuing the same session once".to_owned(),
                    ),
                    Phase {
                        prompt: incomplete_stage_continuation_prompt(protocol),
                        activity: cat3(activity, " (incomplete-turn recovery ", tally.as_str()),
                        output_recoveries: phase.output_recoveries,
                        incomplete_recoveries: count,
                        provider_retries: phase.provider_retries,
                    },
                );
            }
            PhaseStep::Failed(TurnError::Agent(error))
        },
    }
}

/// How many recoveries a phase still has.
pub open spec fn recoveries_left(s: PhaseView, limits: RetryLimits) -> int {
    (limits.output - s.output_recoveries) + (limits.provider - s.provider_retries) + (
    MAX_INCOMPLETE_STAGE_RECOVERIES - s.incomplete_recoveries)
}

/// Whether no kind of trouble was recovered from more often than its limit says.
pub open spec fn within_limits(s: PhaseView, limits: RetryLimits) -> bool {
    s.output_recoveries <= limits.output && s.provider_retries <= limits.provider
        && s.incomplete_recoveries <= MAX_INCOMPLETE_STAGE_RECOVERIES
}

/// A phase fails after a bounded number of turns that failed: each turn that follows a
/// failure uses up one recovery, and no limit is exceeded.
pub proof fn law_recoveries_are_bounded(
    s: PhaseView,
    outcome: OutcomeView,
    session: Seq<char>,
    activity: Seq<char>,
    protocol: StageProtocol,
    limits: RetryLimits,
    remaining: Option<u64>,
)
    requires
        within_limits(s, limits),
        outcome is Failed,
    ensures
        followed(s, outcome, session, activity, protocol, limits, remaining)
            matches PhaseStepView::Again(_, next) ==> within_limits(next, limits)
            && 0 <= recoveries_left(next, limits) < recoveries_left(s, limits),
{
}

/// An interruption by the viewer costs no recovery.
pub proof fn law_interruptions_are_free(
    s: PhaseView,
    pending: Pending,
    report: Option<Seq<char>>,
    session: Seq<char>,
    activity: Seq<char>,
    protocol: StageProtocol,
    limits: RetryLimits,
    remaining: Option<u64>,
)
    ensures
        followed(
            s,
            OutcomeView::Control(pending, report),
            session,
            activity,
            protocol,
            limits,
            remaining,
        ) matches PhaseStepView::Again(_, next) && recoveries_left(next, limits)
            == recoveries_left(s, limits),
{
}

/// A turn that the viewer interrupted is not taken for a result, whatever it said.
pub proof fn law_interrupted_turns_give_no_result(
    s: TurnStateView,
    event: Json,
    session: Seq<char>,
    turn: Seq<char>,
    filter: Option<StreamFilter>,
)
    requires
        s.pending is Some,
    ensures
        after_event(s, event, session, turn, filter).1.outcome matches Some(outcome) ==> !(
        outcome is Complete),
{
}

/// What follows a conversation that could not be taken up: where the server says that
/// it has no history of it, the same phase goes on in a fresh one.
pub open spec fn resumed_afresh(session: SessionModeView, method: Seq<char>, error: Json) -> Option<
    (Seq<char>, SessionModeView),
> {
    match session {
        SessionModeView::Resume { id } => if thread_missing(method, error, id) {
            Some(
                (
                    "Codex planning thread `"@ + id
                        + "` has no saved rollout; continuing the same phase in a fresh thread from repository state"@,
                    SessionModeView::New { id, name: Some("opsx-build-planning"@) },
                ),
            )
        } else {
            None
        },
        SessionModeView::New { .. } => None,
    }
}

/// Decides what follows a conversation that could not be prepared: a warning and the
/// conversation that takes its place, or nothing where the error stands.
pub fn after_resume(session: &SessionMode, error: &CodexRequestError) -> (r: Option<
    (String, SessionMode),
>)
    ensures
        match resumed_afresh(session@, error.method@, error.error) {
            Some((warning, replacement)) => r matches Some(next) && next.0@ == warning && next.1@
                == replacement,
            None => r is None,
        },
{
    match session {
        SessionMode::Resume { id } => {
            if !error.is_missing_thread(id.as_str()) {
                return None;
            }
            let warning = cat3(
                "Codex planning thread `",
                id.as_str(),
                "` has no saved rollout; continuing the same phase in a fresh thread from repository state",
            );
            Some(
                (
                    warning,
                    SessionMode::New { id: id.copy(), name: Some("opsx-build-planning".to_owned()) },
                ),
            )
        },
        SessionMode::New { .. } => None,
    }
}

/// A failure is known by what its message says, in small letters or capitals, and is told
/// with the whole message.
pub proof fn law_failures_are_known_by_their_words(
    before: Seq<char>,
    word: Seq<char>,
    after: Seq<char>,
)
    ensures
        ({
            let message = before + word + after;
            let e = classified(message);
            let w = lowered(word);
            &&& e.message == "Codex turn failed: "@ + message
            &&& w == "rate limit"@ || w == "rate_limit"@ || w == "overloaded"@ || w
                == "temporarily unavailable"@ || w == "timeout"@ || w == "timed out"@ || w
                == "connection reset"@ || w == "network error"@ || w == "429"@ || w == "500"@ || w
                == "502"@ || w == "503"@ || w == "504"@ ==> e.transient
            &&& w == "max_output_tokens"@ || w == "max output tokens"@ || w == "output token limit"@
                || w == "maximum output tokens"@ ==> e.output_limit
            &&& w == "requests ending with a model turn are not supported"@ ==> e.requires_user_turn
        }),
        classified(before).transient ==> exists|w: Seq<char>|
            contains_text(lowered(before), w) && (w == "rate limit"@ || w == "rate_limit"@ || w
                == "overloaded"@ || w == "temporarily unavailable"@ || w == "timeout"@ || w
                == "timed out"@ || w == "connection reset"@ || w == "network error"@ || w == "429"@
                || w == "500"@ || w == "502"@ || w == "503"@ || w == "504"@),
{
    let message = before + word + after;
    let at = before.len() as int;
    assert(lowered(word).len() == word.len());
    assert(lowered(message).subrange(at, at + word.len()) =~= lowered(word));
    assert(crate::text::occurs_at(lowered(message), lowered(word), at));
}

/// An event of another conversation or of another turn changes nothing and ends nothing.
pub proof fn law_other_turns_are_passed_over(
    s: TurnStateView,
    event: Json,
    session: Seq<char>,
    turn: Seq<char>,
    filter: Option<StreamFilter>,
)
    requires
        member(event, "id"@) is None,
        text_in(param(event, "threadId"@)) != Some(session) || (text_in(
            param(event, "turnId"@),
        ) matches Some(other) && other != turn),
    ensures
        ({
            let r = after_event(s, event, session, turn, filter);
            &&& r.0 == s
            &&& r.1.items.len() == 0
            &&& !r.1.interrupt
            &&& r.1.finish is None
            &&& r.1.outcome is None
        }),
{
}

/// Input that only a person can give interrupts a turn and fails it, and names what was asked
/// for.
pub proof fn law_unattended_turns_take_no_input(
    s: TurnStateView,
    event: Json,
    session: Seq<char>,
    turn: Seq<char>,
    filter: Option<StreamFilter>,
)
    requires
        member(event, "id"@) is Some,
        text_in(member(event, "method"@)) is Some,
    ensures
        ({
            let r = after_event(s, event, session, turn, filter);
            &&& r.0 == s
            &&& r.1.interrupt
            &&& r.1.finish == Some(false)
            &&& r.1.outcome matches Some(OutcomeView::Failed(TurnFailureView::Agent(ErrorView::Other(
                m,
            )))) && contains_text(m, text_in(member(event, "method"@))->0)
        }),
{
    let method = text_in(member(event, "method"@))->0;
    let a = "Codex requested unsupported interactive client input through `"@;
    let m = a + method + "` during an unattended stage"@;
    let at = a.len() as int;
    assert(m.subrange(at, at + method.len()) =~= method);
    assert(crate::text::occurs_at(m, method, at));
}

/// A turn goes on until it is said to be over. One that is said to have completed gives the
/// result of its response, and any other end is a failure with the message that is told. An
/// event that reports an error of the turn fails it, unless it will be tried again.
pub proof fn law_turns_end_as_they_are_said_to(
    s: TurnStateView,
    event: Json,
    session: Seq<char>,
    turn: Seq<char>,
    filter: Option<StreamFilter>,
)
    requires
        member(event, "id"@) is None,
        text_in(param(event, "threadId"@)) == Some(session),
        text_in(param(event, "turnId"@)) == Some(turn) || (param(event, "turnId"@) is None
            && text_in(member_of(param(event, "turn"@), "id"@)) == Some(turn)),
    ensures
        ({
            let r = after_event(s, event, session, turn, filter);
            let method = text_in(member(event, "method"@));
            let over = method == Some("turn/completed"@) && text_in(
                member_of(param(event, "turn"@), "id"@),
            ) == Some(turn);
            let error = method == Some("error"@) && text_in(param(event, "turnId"@)) == Some(turn)
                && bool_in(param(event, "willRetry"@)) != Some(true);
            &&& !r.1.interrupt
            &&& r.1.outcome is Some <==> over || error
            &&& r.1.outcome is Some <==> r.1.finish is Some
            &&& error ==> r.0 == s && r.1.finish == Some(false) && (r.1.outcome matches Some(
                OutcomeView::Failed(TurnFailureView::Turn(e)),
            ) && (text_in(member_of(param(event, "error"@), "message"@)) matches Some(m)
                ==> e.message == "Codex turn failed: "@ + m))
            &&& over ==> r.1.finish == Some(s.pending is None)
            &&& over && s.pending is None && text_in(member_of(param(event, "turn"@), "status"@))
                == Some("completed"@) ==> (match r.1.outcome->0 {
                OutcomeView::Complete(v) => v.session_id == Some(session) && Some(v.signal)
                    == response_signal(
                    parsed_json(trimmed(final_response(r.0.response, event))),
                    final_response(r.0.response, event),
                ),
                OutcomeView::Failed(TurnFailureView::Agent(ErrorView::MissingTerminal(_))) => {
                    response_signal(
                        parsed_json(trimmed(final_response(r.0.response, event))),
                        final_response(r.0.response, event),
                    ) is None
                },
                _ => false,
            })
            &&& over && s.pending is None && text_in(member_of(param(event, "turn"@), "status"@))
                != Some("completed"@) ==> (r.1.outcome matches Some(
                OutcomeView::Failed(TurnFailureView::Turn(e)),
            ) && (text_in(
                member_of(member_of(param(event, "turn"@), "error"@), "message"@),
            ) matches Some(m) ==> e.message == "Codex turn failed: "@ + m))
        }),
{
    reveal_strlit("turn/completed");
    reveal_strlit("error");
    reveal_strlit("failed");
    reveal_strlit("completed");
    assert("turn/completed"@.len() != "error"@.len());
    assert("failed"@.len() != "completed"@.len());
}

/// A turn keeps the last message and the last report of the context that were told, and what
/// the viewer asked for.
pub proof fn law_turns_keep_the_last_that_was_told(
    s: TurnStateView,
    event: Json,
    filter: Option<StreamFilter>,
)
    ensures
        ({
            let r = taken_in(s, event, filter).0;
            &&& r.pending == s.pending
            &&& completed_text(event) matches Some(t) ==> r.response == t
            &&& completed_text(event) is None ==> r.response == s.response
            &&& usage_report(event) is Some ==> r.context_report == usage_report(event)
            &&& usage_report(event) is None ==> r.context_report == s.context_report
            &&& filter is None ==> r.stream == s.stream && taken_in(s, event, filter).1.len() == 0
        }),
{
}

/// The response of a turn is the last message that was told. Where none was, it is the last
/// message among the items of the turn.
pub proof fn law_responses_are_last_messages(response: Seq<char>, event: Json, items: Seq<Json>, at: int)
    requires
        items_in(member_of(param(event, "turn"@), "items"@)) == Some(items),
        0 <= at < items.len(),
        text_in(member(items[at], "type"@)) == Some("agentMessage"@),
        text_in(member(items[at], "text"@)) is Some,
        forall|i: int|
            at < i < items.len() ==> text_in(member(#[trigger] items[i], "type"@)) != Some(
                "agentMessage"@,
            ),
    ensures
        response.len() > 0 ==> final_response(response, event) == response,
        response.len() == 0 ==> Some(final_response(response, event)) == text_in(
            member(items[at], "text"@),
        ),
{
    lemma_message_at(items, at);
}

proof fn lemma_message_at(items: Seq<Json>, at: int)
    requires
        0 <= at < items.len(),
        text_in(member(items[at], "type"@)) == Some("agentMessage"@),
        text_in(member(items[at], "text"@)) is Some,
        forall|i: int|
            at < i < items.len() ==> text_in(member(#[trigger] items[i], "type"@)) != Some(
                "agentMessage"@,
            ),
    ensures
        last_message(items) == text_in(member(items[at], "text"@)),
    decreases items.len(),
{
    if at < items.len() - 1 {
        assert(text_in(member(items[items.len() - 1], "type"@)) != Some("agentMessage"@));
        let rest = items.drop_last();
        assert forall|i: int| at < i < rest.len() implies text_in(
            member(#[trigger] rest[i], "type"@),
        ) != Some("agentMessage"@) by {
            assert(rest[i] == items[i]);
        }
        lemma_message_at(rest, at);
    }
}

/// What the viewer wishes: a message is handed on, a compaction or a report interrupts the
/// turn unless another one does, and a pause, an escalation or an interruption ends it.
pub proof fn law_wishes_of_the_viewer_are_followed(pending: Option<Pending>, message: Seq<char>)
    ensures
        after_control(pending, ControlView::Idle) is Ignore,
        after_control(pending, ControlView::Inject(message)) == ControlStepView::Steer(message),
        pending is Some ==> after_control(pending, ControlView::Compact) is Warn && after_control(
            pending,
            ControlView::Context,
        ) is Warn,
        pending is None ==> (after_control(
            pending,
            ControlView::Compact,
        ) matches ControlStepView::Interrupt(p, _) && p == Pending::Compact),
        pending is None ==> (after_control(
            pending,
            ControlView::Context,
        ) matches ControlStepView::Interrupt(p, _) && p == Pending::Context),
        after_control(pending, ControlView::Pause) matches ControlStepView::Stop(step)
            && step.interrupt && step.outcome == Some(
            OutcomeView::Failed(TurnFailureView::Agent(ErrorView::Pause)),
        ),
        after_control(pending, ControlView::Escalate) matches ControlStepView::Stop(step)
            && step.interrupt && (step.outcome matches Some(
            OutcomeView::Failed(TurnFailureView::Agent(ErrorView::Escalation(_))),
        )),
        after_control(pending, ControlView::Interrupt) matches ControlStepView::Stop(step)
            && step.interrupt && (step.outcome matches Some(
            OutcomeView::Failed(TurnFailureView::Agent(ErrorView::Other(_))),
        )),
{
}

/// A wait is as long as the first one doubled with every retry, and never longer than half a
/// minute.
pub proof fn law_waits_are_doubled(base: u64, attempt: u32)
    requires
        base <= 30_000,
        0 < attempt < u32::MAX,
    ensures
        retry_delay(base, 1) == base,
        retry_delay(base, attempt) < 15_000 ==> retry_delay(base, (attempt + 1) as u32) == 2
            * retry_delay(base, attempt),
        retry_delay(base, attempt) >= 15_000 ==> retry_delay(base, (attempt + 1) as u32) == 30_000,
{
    let times = (attempt - 1) as nat;
    assert(doubled(base as nat, times + 1) == 2 * doubled(base as nat, times));
    assert(doubled(base as nat, 0) == base);
}

/// What follows a turn that failed. Trouble is recovered from as long as its own limit lasts:
/// the limit on output tokens first, then a provider that asks for a message, then a failure
/// that will pass, after a wait that the stage has still time for. Each recovery counts as
/// one of its kind, goes on with the same phase, and says why.
pub proof fn law_troubles_are_recovered_from(
    s: PhaseView,
    e: TurnErrorView,
    activity: Seq<char>,
    protocol: StageProtocol,
    limits: RetryLimits,
    remaining: Option<u64>,
)
    ensures
        ({
            let r = after_turn_error(s, e, activity, protocol, limits, remaining);
            let output = e.output_limit && s.output_recoveries < limits.output;
            let asks = !output && e.requires_user_turn && s.provider_retries < limits.provider;
            let waits = !output && !asks && e.transient && s.provider_retries < limits.provider;
            let delay = retry_delay(limits.base_delay, (s.provider_retries + 1) as u32);
            let late = remaining is Some && delay >= remaining->0;
            &&& r is Again <==> output || asks || (waits && !late)
            &&& !output && !asks && !waits ==> r == PhaseStepView::Failed(TurnFailureView::Turn(e))
            &&& waits && late ==> (r matches PhaseStepView::Failed(
                TurnFailureView::Agent(ErrorView::Other(m)),
            ) && e.message.is_suffix_of(m))
            &&& r matches PhaseStepView::Again(between, next) ==> {
                &&& output ==> next.output_recoveries == s.output_recoveries + 1
                    && next.provider_retries == s.provider_retries && (between is Warn)
                    && "The preceding turn reached its output token limit."@.is_prefix_of(
                    next.prompt,
                )
                &&& !output ==> next.output_recoveries == s.output_recoveries
                    && next.provider_retries == s.provider_retries + 1
                &&& next.incomplete_recoveries == s.incomplete_recoveries
                &&& activity.is_prefix_of(next.activity)
                &&& waits ==> (between matches BetweenView::WarnAndWait(_, d) && d == delay)
                &&& asks ==> between is Warn
            }
        }),
{
    let m = OUT_OF_TIME@ + ": "@ + e.message;
    assert(m.subrange(m.len() - e.message.len(), m.len() as int) =~= e.message);
    let r = after_turn_error(s, e, activity, protocol, limits, remaining);
    if r is Again {
        let next = r->Again_1;
        assert(next.activity.subrange(0, activity.len() as int) =~= activity);
        let why = "The preceding turn reached its output token limit."@;
        let p = continuing(protocol, why);
        assert(p.subrange(0, why.len() as int) =~= why);
    }
}

/// What follows a turn: a result is the result of the phase, a work or verification turn
/// without one is followed by another once, and anything else that is not the turn's own
/// failure ends the phase as it is.
pub proof fn law_phases_end_with_their_result(
    s: PhaseView,
    result: ResultView,
    e: ErrorView,
    session: Seq<char>,
    activity: Seq<char>,
    protocol: StageProtocol,
    limits: RetryLimits,
    remaining: Option<u64>,
)
    ensures
        followed(
            s,
            OutcomeView::Complete(result),
            session,
            activity,
            protocol,
            limits,
            remaining,
        ) == PhaseStepView::Done(result),
        ({
            let r = followed(
                s,
                OutcomeView::Failed(TurnFailureView::Agent(e)),
                session,
                activity,
                protocol,
                limits,
                remaining,
            );
            let again = e is MissingTerminal && (protocol == StageProtocol::Worker || protocol
                == StageProtocol::Verify) && s.incomplete_recoveries < 1;
            &&& !again ==> r == PhaseStepView::Failed(TurnFailureView::Agent(e))
            &&& again ==> (r matches PhaseStepView::Again(BetweenView::Warn(_), next)
                && next.incomplete_recoveries == s.incomplete_recoveries + 1
                && next.output_recoveries == s.output_recoveries && next.provider_retries
                == s.provider_retries && (if protocol == StageProtocol::Verify {
                RESUME_VERIFICATION@
            } else {
                RESUME_WORK@
            }).is_prefix_of(next.prompt))
        }),
{
    let why = if protocol == StageProtocol::Verify {
        RESUME_VERIFICATION@
    } else {
        RESUME_WORK@
    };
    let p = continuing(protocol, why);
    assert(p.subrange(0, why.len() as int) =~= why);
}

/// An interruption by the viewer does what was asked for: the conversation is compacted, or
/// the last report of the context is shown. The phase then goes on.
pub proof fn law_interruptions_do_what_was_asked(
    s: PhaseView,
    report: Seq<char>,
    session: Seq<char>,
    activity: Seq<char>,
    protocol: StageProtocol,
)
    ensures
        after_interruption(
            s,
            Pending::Compact,
            Some(report),
            session,
            activity,
            protocol,
        ) matches PhaseStepView::Again(BetweenView::Compact(t), next) && session.is_suffix_of(t)
            && (PhaseView { prompt: s.prompt, activity: s.activity, ..next }) == s,
        after_interruption(
            s,
            Pending::Context,
            Some(report),
            session,
            activity,
            protocol,
        ) matches PhaseStepView::Again(BetweenView::Show(t), next) && t == report && (PhaseView {
            prompt: s.prompt,
            activity: s.activity,
            ..next
        }) == s,
{
    let t = "Codex compacted thread "@ + session;
    assert(t.subrange(t.len() - session.len(), t.len() as int) =~= session);
}

/// A conversation that cannot be taken up is begun afresh only where the server says that it
/// has no history of it. The phase then goes on under the same identifier.
pub proof fn law_only_lost_conversations_are_begun_afresh(
    id: Seq<char>,
    name: Option<Seq<char>>,
    method: Seq<char>,
    error: Json,
)
    ensures
        resumed_afresh(SessionModeView::New { id, name }, method, error) is None,
        resumed_afresh(SessionModeView::Resume { id }, method, error) is Some <==> method
            == "thread/resume"@ && crate::json::signed_in(member(error, "code"@)) == Some(-32600i64)
            && text_in(member(error, "message"@)) == Some(
            "no rollout found for thread id "@ + id,
        ),
        resumed_afresh(SessionModeView::Resume { id }, method, error) matches Some(next) ==> next.1
            == (SessionModeView::New { id, name: Some("opsx-build-planning"@) }) && contains_text(
            next.0,
            id,
        ),
{
    let a = "Codex planning thread `"@;
    let w = a + id
        + "` has no saved rollout; continuing the same phase in a fresh thread from repository state"@;
    let at = a.len() as int;
    assert(w.subrange(at, at + id.len()) =~= id);
    assert(crate::text::occurs_at(w, id, at));
}

/// A turn is asked its prompt, and where the harness has no structured output the schema of
/// the result behind it.
pub proof fn law_turns_are_asked_their_prompt(prompt: Seq<char>, protocol: StageProtocol)
    ensures
        asked(prompt, protocol, true) == prompt,
        (prompt + SCHEMA_PROMPT_1@ + protocol.schema()).is_prefix_of(asked(prompt, protocol, false)),
{
    let a = prompt + SCHEMA_PROMPT_1@ + protocol.schema();
    assert(asked(prompt, protocol, false).subrange(0, a.len() as int) =~= a);
}

} // verus!
