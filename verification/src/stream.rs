//! What is shown of an agent's work while it goes on, and what the viewer can ask.
use vstd::prelude::*;

verus! {

/// How much of an agent's activity is shown.
#[derive(Debug, Clone, Copy, PartialEq, Eq, Structural)]
pub enum StreamFilter {
    Activity,
    Reasoning,
    Full,
    Raw,
}

impl StreamFilter {
    /// Whether what the agent reasons is shown too.
    pub fn includes_reasoning(self) -> (r: bool)
        ensures
            r == (self != StreamFilter::Activity),
    {
        self != StreamFilter::Activity
    }
}

/// One thing that an agent did.
#[derive(Debug, Clone, PartialEq, Eq)]
pub enum StreamItem {
    Assistant(String),
    OpenCode(String),
    Codex(String),
    Reasoning(String),
    Subagent(String),
    Tool(String),
    ToolResult(String),
    Lifecycle(String),
    Raw(String),
}

pub enum ItemView {
    Assistant(Seq<char>),
    OpenCode(Seq<char>),
    Codex(Seq<char>),
    Reasoning(Seq<char>),
    Subagent(Seq<char>),
    Tool(Seq<char>),
    ToolResult(Seq<char>),
    Lifecycle(Seq<char>),
    Raw(Seq<char>),
}

impl View for StreamItem {
    type V = ItemView;

    open spec fn view(&self) -> ItemView {
        match self {
            StreamItem::Assistant(t) => ItemView::Assistant(t@),
            StreamItem::OpenCode(t) => ItemView::OpenCode(t@),
            StreamItem::Codex(t) => ItemView::Codex(t@),
            StreamItem::Reasoning(t) => ItemView::Reasoning(t@),
            StreamItem::Subagent(t) => ItemView::Subagent(t@),
            StreamItem::Tool(t) => ItemView::Tool(t@),
            StreamItem::ToolResult(t) => ItemView::ToolResult(t@),
            StreamItem::Lifecycle(t) => ItemView::Lifecycle(t@),
            StreamItem::Raw(t) => ItemView::Raw(t@),
        }
    }
}

/// What the viewer asks of a running stage.
#[derive(Debug, Clone, PartialEq, Eq)]
pub enum StreamControl {
    Idle,
    Inject(String),
    Compact,
    Context,
    Pause,
    Escalate,
    Interrupt,
}

pub enum ControlView {
    Idle,
    Inject(Seq<char>),
    Compact,
    Context,
    Pause,
    Escalate,
    Interrupt,
}

impl View for StreamControl {
    type V = ControlView;

    open spec fn view(&self) -> ControlView {
        match self {
            StreamControl::Idle => ControlView::Idle,
            StreamControl::Inject(t) => ControlView::Inject(t@),
            StreamControl::Compact => ControlView::Compact,
            StreamControl::Context => ControlView::Context,
            StreamControl::Pause => ControlView::Pause,
            StreamControl::Escalate => ControlView::Escalate,
            StreamControl::Interrupt => ControlView::Interrupt,
        }
    }
}

} // verus!
