//! What a step of a workflow asks for: messages to show, things to make durable, and a
//! turn of an agent.
use crate::backend::{
    AgentError, SessionId, SessionMode, SessionModeView, StageProtocol, StageResult, StageSignal,
};
use crate::failure::Failure;
use crate::git::{BaselineView, SliceBaseline};
use crate::state::RunStateView;
use crate::text::{cat3, cat4, seen_all, text_option, trim, trimmed};
use vstd::prelude::*;
use vstd::string::*;

verus! {

/// What a recorded state gives way to.
#[derive(Debug, Clone, Copy, PartialEq, Eq, Structural)]
pub enum Superseding {
    /// The end of its workflow.
    End,
    /// The division of its slice.
    Division,
    /// Remediation before the terminal slice.
    Remediation,
}

/// Something that a step asks for.
#[derive(Debug, Clone)]
pub enum Effect {
    Info(String),
    Warn(String),
    Success(String),
    /// Write the checkpoint.
    Persist,
    /// Show the name of the current change.
    ChangeName(Option<String>),
    /// Compact the conversation after a phase.
    Compact(SessionId, String),
    /// Give the conversation a name; a failure is only a warning.
    Rename(SessionId, String),
    /// Record the state of the repository to come back to.
    ArmBaseline,
    /// Let go of this recorded state.
    ReleaseBaseline(SliceBaseline, Superseding),
    /// Leave the dashboard.
    FinishDashboard,
}

pub enum EffectView {
    Info(Seq<char>),
    Warn(Seq<char>),
    Success(Seq<char>),
    Persist,
    ChangeName(Option<Seq<char>>),
    Compact(Seq<char>, Seq<char>),
    Rename(Seq<char>, Seq<char>),
    ArmBaseline,
    ReleaseBaseline(BaselineView, Superseding),
    FinishDashboard,
}

impl View for Effect {
    type V = EffectView;

    open spec fn view(&self) -> EffectView {
        match *self {
            Effect::Info(s) => EffectView::Info(s@),
            Effect::Warn(s) => EffectView::Warn(s@),
            Effect::Success(s) => EffectView::Success(s@),
            Effect::Persist => EffectView::Persist,
            Effect::ChangeName(c) => EffectView::ChangeName(text_option(c)),
            Effect::Compact(id, phase) => EffectView::Compact(id@, phase@),
            Effect::Rename(id, name) => EffectView::Rename(id@, name@),
            Effect::ArmBaseline => EffectView::ArmBaseline,
            Effect::ReleaseBaseline(baseline, by) => EffectView::ReleaseBaseline(baseline@, by),
            Effect::FinishDashboard => EffectView::FinishDashboard,
        }
    }
}

/// Why a step failed.
pub enum ErrorView {
    Pause,
    Escalation(Seq<char>),
    MissingTerminal(Seq<char>),
    Other(Seq<char>),
}

impl View for AgentError {
    type V = ErrorView;

    open spec fn view(&self) -> ErrorView {
        match *self {
            AgentError::Pause => ErrorView::Pause,
            AgentError::Escalation { reason } => ErrorView::Escalation(reason@),
            AgentError::MissingTerminal { result } => ErrorView::MissingTerminal(result@),
            AgentError::Other { message } => ErrorView::Other(message@),
        }
    }
}

/// What an agent answered.
pub struct ResultView {
    pub text: Seq<char>,
    pub session_id: Option<Seq<char>>,
    pub signal: StageSignal,
}

impl View for StageResult {
    type V = ResultView;

    open spec fn view(&self) -> ResultView {
        ResultView { text: self.text@, session_id: text_option(self.session_id), signal: self.signal }
    }
}

/// A result by view.
pub open spec fn answer(r: Result<StageResult, AgentError>) -> Result<ResultView, ErrorView> {
    match r {
        Ok(x) => Ok(x@),
        Err(e) => Err(e@),
    }
}

/// How a step ended.
pub open spec fn ended(r: Result<(), AgentError>) -> Result<(), ErrorView> {
    match r {
        Ok(()) => Ok(()),
        Err(e) => Err(e@),
    }
}

/// What a step asks for, and whether the stage may go on.
pub struct Step {
    pub effects: Vec<Effect>,
    pub result: Result<(), AgentError>,
}

/// A step with the state it leaves.
pub struct StepView {
    pub state: RunStateView,
    pub effects: Seq<EffectView>,
    pub result: Result<(), ErrorView>,
}

impl Step {
    pub open spec fn with(self, state: RunStateView) -> StepView {
        StepView { state, effects: seen_all(self.effects@), result: ended(self.result) }
    }
}

/// A step that succeeds.
pub open spec fn done(state: RunStateView, effects: Seq<EffectView>) -> StepView {
    StepView { state, effects, result: Ok(()) }
}

/// A step that fails.
pub open spec fn refused(state: RunStateView, effects: Seq<EffectView>, message: Seq<char>) -> StepView {
    StepView { state, effects, result: Err(ErrorView::Other(message)) }
}

/// Adds something to what a step asks for.
pub fn push_effect(list: &mut Vec<Effect>, effect: Effect)
    ensures
        seen_all(final(list)@) == seen_all(old(list)@).push(effect@),
{
    list.push(effect);
    assert(seen_all(list@) =~= seen_all(old(list)@).push(effect@));
}

pub fn effects0() -> (r: Vec<Effect>)
    ensures
        seen_all(r@) == Seq::<EffectView>::empty(),
{
    let r: Vec<Effect> = Vec::new();
    assert(seen_all(r@) =~= Seq::empty());
    r
}

pub fn effects1(a: Effect) -> (r: Vec<Effect>)
    ensures
        seen_all(r@) == seq![a@],
{
    let mut r: Vec<Effect> = Vec::new();
    r.push(a);
    assert(seen_all(r@) =~= seq![a@]);
    r
}

pub fn effects2(a: Effect, b: Effect) -> (r: Vec<Effect>)
    ensures
        seen_all(r@) == seq![a@, b@],
{
    let mut r: Vec<Effect> = Vec::new();
    r.push(a);
    r.push(b);
    assert(seen_all(r@) =~= seq![a@, b@]);
    r
}

pub fn effects3(a: Effect, b: Effect, c: Effect) -> (r: Vec<Effect>)
    ensures
        seen_all(r@) == seq![a@, b@, c@],
{
    let mut r: Vec<Effect> = Vec::new();
    r.push(a);
    r.push(b);
    r.push(c);
    assert(seen_all(r@) =~= seq![a@, b@, c@]);
    r
}

pub fn effects4(a: Effect, b: Effect, c: Effect, d: Effect) -> (r: Vec<Effect>)
    ensures
        seen_all(r@) == seq![a@, b@, c@, d@],
{
    let mut r: Vec<Effect> = Vec::new();
    r.push(a);
    r.push(b);
    r.push(c);
    r.push(d);
    assert(seen_all(r@) =~= seq![a@, b@, c@, d@]);
    r
}

pub fn effects5(a: Effect, b: Effect, c: Effect, d: Effect, e: Effect) -> (r: Vec<Effect>)
    ensures
        seen_all(r@) == seq![a@, b@, c@, d@, e@],
{
    let mut r = effects4(a, b, c, d);
    push_effect(&mut r, e);
    assert(seen_all(r@) =~= seq![a@, b@, c@, d@, e@]);
    r
}

pub fn refuse(message: String) -> (r: Result<(), AgentError>)
    ensures
        ended(r) == Err::<(), ErrorView>(ErrorView::Other(message@)),
{
    Err(AgentError::Other { message })
}

/// A failure of the library as an agent's.
pub fn as_error(failure: Failure) -> (r: AgentError)
    ensures
        r@ == ErrorView::Other(failure.message@),
{
    AgentError::Other { message: failure.message }
}

/// One turn of an agent.
#[derive(Debug, Clone)]
pub struct Turn {
    pub session: SessionMode,
    pub prompt: String,
    pub activity: String,
    pub protocol: StageProtocol,
}

pub struct TurnView {
    pub session: SessionModeView,
    pub prompt: Seq<char>,
    pub activity: Seq<char>,
    pub protocol: StageProtocol,
}

impl View for Turn {
    type V = TurnView;

    open spec fn view(&self) -> TurnView {
        TurnView {
            session: self.session@,
            prompt: self.prompt@,
            activity: self.activity@,
            protocol: self.protocol,
        }
    }
}

/// A conversation of its own, under a name.
pub open spec fn fresh(id: Seq<char>, name: Seq<char>) -> SessionModeView {
    SessionModeView::New { id, name: Some(name) }
}

pub fn fresh_session(id: &str, name: &str) -> (r: SessionMode)
    ensures
        r@ == fresh(id@, name@),
{
    SessionMode::New { id: SessionId::new(id), name: Some(name.to_owned()) }
}

/// What is reported where a stage is blocked.
pub open spec fn blocked_message(stage: Seq<char>, response: Seq<char>) -> Seq<char> {
    "BLOCKED during "@ + stage + ":\n"@ + trimmed(response)
}

pub fn blocked(stage: &str, response: &str) -> (r: String)
    ensures
        r@ == blocked_message(stage@, response@),
{
    let bare = trim(response);
    cat4("BLOCKED during ", stage, ":\n", bare.as_str())
}

pub open spec fn signal_name(signal: StageSignal) -> Seq<char> {
    match signal {
        StageSignal::Ready => "Ready"@,
        StageSignal::Done => "Done"@,
        StageSignal::TooLarge => "TooLarge"@,
        StageSignal::Verified => "Verified"@,
        StageSignal::Retry => "Retry"@,
        StageSignal::Blocked => "Blocked"@,
        StageSignal::Replanned => "Replanned"@,
    }
}

pub fn name_of(signal: StageSignal) -> (r: &'static str)
    ensures
        r@ == signal_name(signal),
{
    match signal {
        StageSignal::Ready => "Ready",
        StageSignal::Done => "Done",
        StageSignal::TooLarge => "TooLarge",
        StageSignal::Verified => "Verified",
        StageSignal::Retry => "Retry",
        StageSignal::Blocked => "Blocked",
        StageSignal::Replanned => "Replanned",
    }
}

/// What is reported where a stage gives a result that it must not give.
pub open spec fn unexpected_message(stage: Seq<char>, signal: StageSignal) -> Seq<char> {
    stage + " returned unexpected terminal status "@ + signal_name(signal)
}

pub fn unexpected(stage: &str, signal: StageSignal) -> (r: String)
    ensures
        r@ == unexpected_message(stage@, signal),
{
    cat3(stage, " returned unexpected terminal status ", name_of(signal))
}

/// Whether a stage that may only be ready is.
pub open spec fn readiness(stage: Seq<char>, response: Seq<char>, signal: StageSignal) -> Result<
    (),
    ErrorView,
> {
    match signal {
        StageSignal::Ready => Ok(()),
        StageSignal::Blocked => Err(ErrorView::Other(blocked_message(stage, response))),
        other => Err(ErrorView::Other(unexpected_message(stage, other))),
    }
}

pub fn require_ready(stage: &str, response: &str, signal: StageSignal) -> (r: Result<(), AgentError>)
    ensures
        ended(r) == readiness(stage@, response@, signal),
{
    match signal {
        StageSignal::Ready => Ok(()),
        StageSignal::Blocked => refuse(blocked(stage, response)),
        other => refuse(unexpected(stage, other)),
    }
}

/// Only READY is readiness. What a blocked agent said is passed on, and any other result is
/// named.
pub proof fn law_only_ready_is_ready(stage: Seq<char>, response: Seq<char>, signal: StageSignal)
    ensures
        readiness(stage, response, signal) is Ok <==> signal == StageSignal::Ready,
        signal == StageSignal::Blocked ==> (readiness(
            stage,
            response,
            signal,
        ) matches Err(ErrorView::Other(m)) && trimmed(response).is_suffix_of(m)),
        signal != StageSignal::Ready && signal != StageSignal::Blocked ==> (readiness(
            stage,
            response,
            signal,
        ) matches Err(ErrorView::Other(m)) && stage.is_prefix_of(m) && signal_name(
            signal,
        ).is_suffix_of(m)),
{
    let m = blocked_message(stage, response);
    let text = trimmed(response);
    assert(m.subrange(m.len() - text.len(), m.len() as int) =~= text);
    let n = unexpected_message(stage, signal);
    let name = signal_name(signal);
    assert(n.subrange(0, stage.len() as int) =~= stage);
    assert(n.subrange(n.len() - name.len(), n.len() as int) =~= name);
}

} // verus!
