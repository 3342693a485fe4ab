//! The dashboard of a run: its phases as panels that open and close, what the agents did in
//! them, and what the viewer asks for. Times are milliseconds on one clock.
use crate::names::{Harness, HarnessView};
use crate::numeral::{decimal, decimal_text};
use crate::screen::{dragged_position, scrollbar_position_for_row, ScrollbarGeometry};
use crate::stream::{ControlView, ItemView, StreamControl, StreamItem};
use crate::text::{
    cat2, chars_of, control, equal, is_control, join, joined, lemma_seen_all_push, lines, lines_of,
    push_text, seen, seen_all, string_of, text_option, texts, trim, trimmed,
};
use vstd::prelude::*;
use vstd::string::*;

verus! {

/// How many lines are kept, over all panels.
pub const MAX_DISPLAY_LINES: usize = 20_000;

/// How long a message is shown whole.
pub const MAX_MESSAGE_LINES: usize = 200;

pub const MESSAGE_HEAD_LINES: usize = 120;

pub const MESSAGE_TAIL_LINES: usize = 80;

/// How many faces the spinner has.
pub const SPINNER_FACES: usize = 10;

/// A color of the terminal.
#[derive(Debug, Clone, Copy, PartialEq, Eq, Structural)]
pub enum Color {
    White,
    Cyan,
    Blue,
    Yellow,
    DarkGrey,
    Magenta,
    Green,
    Red,
}

/// A phase, as its panel is headed.
#[derive(Debug, Clone, PartialEq, Eq)]
pub struct StageView {
    pub current: usize,
    pub total: usize,
    pub title: String,
    pub started_at: u64,
}

/// An iteration of a campaign that is over.
#[derive(Debug, Clone, PartialEq, Eq)]
pub struct CampaignIterationDashboardView {
    pub iteration: u32,
    pub change: String,
    pub final_head: Option<String>,
    pub elapsed_seconds: Option<u64>,
}

pub struct IterationSpec {
    pub iteration: u32,
    pub change: Seq<char>,
    pub final_head: Option<Seq<char>>,
    pub elapsed_seconds: Option<u64>,
}

impl View for CampaignIterationDashboardView {
    type V = IterationSpec;

    open spec fn view(&self) -> IterationSpec {
        IterationSpec {
            iteration: self.iteration,
            change: self.change@,
            final_head: text_option(self.final_head),
            elapsed_seconds: self.elapsed_seconds,
        }
    }
}

/// A campaign: the iteration that goes on, and those before it.
#[derive(Debug, Clone, PartialEq, Eq)]
pub struct CampaignDashboardView {
    pub iteration: u32,
    pub max_iterations: Option<u32>,
    pub completed: Vec<CampaignIterationDashboardView>,
}

pub struct CampaignSpec {
    pub iteration: u32,
    pub max_iterations: Option<u32>,
    pub completed: Seq<IterationSpec>,
}

impl View for CampaignDashboardView {
    type V = CampaignSpec;

    open spec fn view(&self) -> CampaignSpec {
        CampaignSpec {
            iteration: self.iteration,
            max_iterations: self.max_iterations,
            completed: seen_all(self.completed@),
        }
    }
}

/// Who a line is from.
#[derive(Debug, Clone, PartialEq, Eq)]
pub struct SourceLabel {
    pub text: String,
    pub color: Color,
}

pub struct LabelSpec {
    pub text: Seq<char>,
    pub color: Color,
}

impl View for SourceLabel {
    type V = LabelSpec;

    open spec fn view(&self) -> LabelSpec {
        LabelSpec { text: self.text@, color: self.color }
    }
}

/// A line of a panel.
#[derive(Debug, Clone)]
pub struct DisplayLine {
    pub text: String,
    pub color: Color,
    pub source: Option<SourceLabel>,
}

pub struct LineSpec {
    pub text: Seq<char>,
    pub color: Color,
    pub source: Option<LabelSpec>,
}

impl View for DisplayLine {
    type V = LineSpec;

    open spec fn view(&self) -> LineSpec {
        LineSpec { text: self.text@, color: self.color, source: seen(self.source) }
    }
}

/// How a phase goes.
#[derive(Debug, Clone, Copy, PartialEq, Eq, Structural)]
pub enum PhaseStatus {
    Running,
    Complete,
    Failed,
}

/// What the viewer asked for and has still to confirm.
#[derive(Debug, Clone, Copy, PartialEq, Eq, Structural)]
pub enum PendingConfirmation {
    Pause,
    StopAfterIteration,
    Escalate,
    Compact,
    Context,
}

impl PendingConfirmation {
    pub open spec fn question(self) -> Seq<char> {
        match self {
            PendingConfirmation::Pause => "Pause now and stop the current agent process?"@,
            PendingConfirmation::StopAfterIteration => "Pause after the current OpenSpec change completes?"@,
            PendingConfirmation::Escalate => "Stop the local worker and request frontier replanning?"@,
            PendingConfirmation::Compact => "Interrupt the active agent, compact, and restart the current phase?"@,
            PendingConfirmation::Context => "Interrupt the active agent and request a context report?"@,
        }
    }

    pub fn prompt(self) -> (r: &'static str)
        ensures
            r@ == self.question(),
    {
        match self {
            PendingConfirmation::Pause => "Pause now and stop the current agent process?",
            PendingConfirmation::StopAfterIteration => "Pause after the current OpenSpec change completes?",
            PendingConfirmation::Escalate => "Stop the local worker and request frontier replanning?",
            PendingConfirmation::Compact => "Interrupt the active agent, compact, and restart the current phase?",
            PendingConfirmation::Context => "Interrupt the active agent and request a context report?",
        }
    }
}

/// A phase: how it goes, and what was done in it. The oldest lines are dropped where there
/// are too many.
#[derive(Debug, Clone)]
pub struct PhasePanel {
    pub stage: StageView,
    pub finished_at: Option<u64>,
    pub occurrence: usize,
    pub status: PhaseStatus,
    pub lines: Vec<DisplayLine>,
    pub total_lines: u64,
    pub dropped_lines: u64,
    pub expanded: bool,
}

pub struct PanelSpec {
    pub current: usize,
    pub total: usize,
    pub title: Seq<char>,
    pub started_at: u64,
    pub finished_at: Option<u64>,
    pub occurrence: usize,
    pub status: PhaseStatus,
    pub lines: Seq<LineSpec>,
    pub total_lines: u64,
    pub dropped_lines: u64,
    pub expanded: bool,
}

impl View for PhasePanel {
    type V = PanelSpec;

    open spec fn view(&self) -> PanelSpec {
        PanelSpec {
            current: self.stage.current,
            total: self.stage.total,
            title: self.stage.title@,
            started_at: self.stage.started_at,
            finished_at: self.finished_at,
            occurrence: self.occurrence,
            status: self.status,
            lines: seen_all(self.lines@),
            total_lines: self.total_lines,
            dropped_lines: self.dropped_lines,
            expanded: self.expanded,
        }
    }
}

/// The dashboard.
#[derive(Debug, Clone)]
pub struct StreamDashboard {
    pub repo: String,
    pub change_name: Option<String>,
    pub campaign: Option<CampaignDashboardView>,
    pub activity: String,
    pub panels: Vec<PhasePanel>,
    pub selected_panel: usize,
    pub viewport_start: usize,
    pub follow_latest: bool,
    pub ensure_selected: bool,
    pub heading_rows: Vec<(u16, usize)>,
    pub scrollbar: Option<ScrollbarGeometry>,
    pub scrollbar_drag: Option<u16>,
    pub retained_lines: usize,
    pub spinner_index: usize,
    pub last_tick: u64,
    pub last_draw: u64,
    pub last_size: Option<(u16, u16)>,
    pub last_footer: Option<String>,
    pub dirty: bool,
    pub active: bool,
    pub compact_requested: bool,
    pub context_requested: bool,
    pub injection_input: Option<String>,
    pub pending_confirmation: Option<PendingConfirmation>,
    pub stop_after_iteration: bool,
    pub frontier_enabled: bool,
}

pub struct DashSpec {
    pub repo: Seq<char>,
    pub change_name: Option<Seq<char>>,
    pub campaign: Option<CampaignSpec>,
    pub activity: Seq<char>,
    pub panels: Seq<PanelSpec>,
    pub selected_panel: usize,
    pub viewport_start: usize,
    pub follow_latest: bool,
    pub ensure_selected: bool,
    pub heading_rows: Seq<(u16, usize)>,
    pub scrollbar: Option<ScrollbarGeometry>,
    pub scrollbar_drag: Option<u16>,
    pub retained_lines: usize,
    pub spinner_index: usize,
    pub last_tick: u64,
    pub last_draw: u64,
    pub last_size: Option<(u16, u16)>,
    pub last_footer: Option<Seq<char>>,
    pub dirty: bool,
    pub active: bool,
    pub compact_requested: bool,
    pub context_requested: bool,
    pub injection_input: Option<Seq<char>>,
    pub pending_confirmation: Option<PendingConfirmation>,
    pub stop_after_iteration: bool,
    pub frontier_enabled: bool,
}

impl View for StreamDashboard {
    type V = DashSpec;

    open spec fn view(&self) -> DashSpec {
        DashSpec {
            repo: self.repo@,
            change_name: text_option(self.change_name),
            campaign: seen(self.campaign),
            activity: self.activity@,
            panels: seen_all(self.panels@),
            selected_panel: self.selected_panel,
            viewport_start: self.viewport_start,
            follow_latest: self.follow_latest,
            ensure_selected: self.ensure_selected,
            heading_rows: self.heading_rows@,
            scrollbar: self.scrollbar,
            scrollbar_drag: self.scrollbar_drag,
            retained_lines: self.retained_lines,
            spinner_index: self.spinner_index,
            last_tick: self.last_tick,
            last_draw: self.last_draw,
            last_size: self.last_size,
            last_footer: text_option(self.last_footer),
            dirty: self.dirty,
            active: self.active,
            compact_requested: self.compact_requested,
            context_requested: self.context_requested,
            injection_input: text_option(self.injection_input),
            pending_confirmation: self.pending_confirmation,
            stop_after_iteration: self.stop_after_iteration,
            frontier_enabled: self.frontier_enabled,
        }
    }
}

impl DashSpec {
    /// What every operation keeps: the selection and the headings on the screen are panels
    /// that there are, and not too many lines are kept.
    pub open spec fn wf(self) -> bool {
        &&& self.panels.len() > 0 ==> self.selected_panel < self.panels.len()
        &&& forall|i: int|
            0 <= i < self.heading_rows.len() ==> (#[trigger] self.heading_rows[i]).1
                < self.panels.len()
        &&& self.retained_lines <= MAX_DISPLAY_LINES
        &&& self.spinner_index < SPINNER_FACES
    }
}

/// A dashboard that is entered.
pub open spec fn entered(
    repo: Seq<char>,
    change_name: Option<Seq<char>>,
    campaign: Option<CampaignSpec>,
    now: u64,
) -> DashSpec {
    DashSpec {
        repo,
        change_name,
        campaign,
        activity: "Preparing workflow"@,
        panels: Seq::empty(),
        selected_panel: 0,
        viewport_start: 0,
        follow_latest: true,
        ensure_selected: false,
        heading_rows: Seq::empty(),
        scrollbar: None,
        scrollbar_drag: None,
        retained_lines: 0,
        spinner_index: 0,
        last_tick: now,
        last_draw: now,
        last_size: None,
        last_footer: None,
        dirty: true,
        active: true,
        compact_requested: false,
        context_requested: false,
        injection_input: None,
        pending_confirmation: None,
        stop_after_iteration: false,
        frontier_enabled: true,
    }
}

/// The iteration of a campaign.
pub open spec fn iteration_of(campaign: Option<CampaignSpec>) -> Option<u32> {
    match campaign {
        Some(c) => Some(c.iteration),
        None => None,
    }
}

/// The dashboard with another campaign. A new iteration begins with no panels.
pub open spec fn with_campaign(d: DashSpec, campaign: Option<CampaignSpec>) -> DashSpec {
    if iteration_of(d.campaign) != iteration_of(campaign) {
        DashSpec {
            campaign,
            panels: Seq::empty(),
            selected_panel: 0,
            viewport_start: 0,
            follow_latest: true,
            ensure_selected: false,
            heading_rows: Seq::empty(),
            retained_lines: 0,
            change_name: None,
            stop_after_iteration: false,
            dirty: true,
            ..d
        }
    } else {
        DashSpec { campaign, dirty: true, ..d }
    }
}

/// The last panel replaced.
pub open spec fn with_last(d: DashSpec, panel: PanelSpec) -> DashSpec {
    DashSpec { panels: d.panels.update(d.panels.len() - 1, panel), ..d }
}

/// A panel that another one follows: it is over, and closed.
pub open spec fn closed_panel(p: PanelSpec, now: u64) -> PanelSpec {
    PanelSpec {
        status: if p.status == PhaseStatus::Running {
            PhaseStatus::Complete
        } else {
            p.status
        },
        finished_at: match p.finished_at {
            Some(t) => Some(t),
            None => Some(now),
        },
        expanded: false,
        ..p
    }
}

/// How often a phase occurs among some panels.
pub open spec fn occurrences(panels: Seq<PanelSpec>, current: usize, title: Seq<char>) -> nat
    decreases panels.len(),
{
    if panels.len() == 0 {
        0
    } else {
        occurrences(panels.drop_last(), current, title) + if panels.last().current == current
            && panels.last().title == title {
            1nat
        } else {
            0
        }
    }
}

/// The panels once a new phase begins.
pub open spec fn with_stage(
    panels: Seq<PanelSpec>,
    current: usize,
    total: usize,
    title: Seq<char>,
    started_at: u64,
    now: u64,
) -> Seq<PanelSpec> {
    let before = if panels.len() == 0 {
        panels
    } else {
        panels.update(panels.len() - 1, closed_panel(panels.last(), now))
    };
    before.push(
        PanelSpec {
            current,
            total,
            title,
            started_at,
            finished_at: None,
            occurrence: (occurrences(before, current, title) + 1) as usize,
            status: PhaseStatus::Running,
            lines: Seq::empty(),
            total_lines: 0,
            dropped_lines: 0,
            expanded: true,
        },
    )
}

/// The dashboard once a new phase begins: its panel is open, selected and in view.
pub open spec fn staged(
    d: DashSpec,
    current: usize,
    total: usize,
    title: Seq<char>,
    started_at: u64,
    now: u64,
) -> DashSpec {
    DashSpec {
        panels: with_stage(d.panels, current, total, title, started_at, now),
        selected_panel: d.panels.len() as usize,
        activity: "Preparing phase"@,
        follow_latest: true,
        ensure_selected: true,
        dirty: true,
        ..d
    }
}

/// The dashboard once an agent begins to work.
pub open spec fn streaming(d: DashSpec, message: Seq<char>) -> DashSpec {
    let e = DashSpec {
        activity: message,
        compact_requested: false,
        context_requested: false,
        injection_input: None,
        pending_confirmation: None,
        dirty: true,
        ..d
    };
    if d.panels.len() == 0 {
        e
    } else {
        with_last(
            e,
            PanelSpec { status: PhaseStatus::Running, finished_at: None, ..d.panels.last() },
        )
    }
}

/// The dashboard with the last phase failed, if it did.
pub open spec fn judged(d: DashSpec, success: bool, now: u64) -> DashSpec {
    if success || d.panels.len() == 0 {
        d
    } else {
        with_last(
            d,
            PanelSpec { status: PhaseStatus::Failed, finished_at: Some(now), ..d.panels.last() },
        )
    }
}

/// One more, as far as a counter goes.
pub open spec fn one_more(n: u64) -> u64 {
    if n == u64::MAX {
        n
    } else {
        (n + 1) as u64
    }
}

fn count_one(n: u64) -> (r: u64)
    ensures
        r == one_more(n),
{
    if n == u64::MAX {
        n
    } else {
        n + 1
    }
}

/// The first panel with lines, from `from` on.
pub open spec fn first_filled(panels: Seq<PanelSpec>, from: int) -> Option<int>
    decreases panels.len() - from,
{
    if from < 0 || from >= panels.len() {
        None
    } else if panels[from].lines.len() > 0 {
        Some(from)
    } else {
        first_filled(panels, from + 1)
    }
}

/// The dashboard without its oldest line, where it has too many.
pub open spec fn trimmed_dash(d: DashSpec) -> DashSpec {
    if d.retained_lines <= MAX_DISPLAY_LINES {
        d
    } else {
        match first_filled(d.panels, 0) {
            None => d,
            Some(i) => {
                let p = d.panels[i];
                DashSpec {
                    panels: d.panels.update(
                        i,
                        PanelSpec {
                            lines: p.lines.skip(1),
                            dropped_lines: one_more(p.dropped_lines),
                            ..p
                        },
                    ),
                    retained_lines: (d.retained_lines - 1) as usize,
                    ..d
                }
            },
        }
    }
}

/// The dashboard with one more line in its last panel.
pub open spec fn with_line(d: DashSpec, line: LineSpec) -> DashSpec {
    if d.panels.len() == 0 {
        d
    } else {
        let p = d.panels.last();
        let e = with_last(
            d,
            PanelSpec {
                lines: p.lines.push(line),
                total_lines: one_more(p.total_lines),
                ..p
            },
        );
        DashSpec {
            dirty: true,
            ..trimmed_dash(DashSpec { retained_lines: (d.retained_lines + 1) as usize, ..e })
        }
    }
}

/// A text without control characters, with blanks for tabs.
pub open spec fn sanitized(text: Seq<char>) -> Seq<char>
    decreases text.len(),
{
    if text.len() == 0 {
        text
    } else {
        let front = sanitized(text.drop_last());
        if text.last() == '\t' {
            front.push(' ')
        } else if control(text.last()) {
            front
        } else {
            front.push(text.last())
        }
    }
}

/// The dashboard with a message in its last panel, line by line. Only the first line says
/// who it is from.
pub open spec fn with_message(d: DashSpec, label: Seq<char>, color: Color, list: Seq<Seq<char>>) -> DashSpec
    decreases list.len(),
{
    if list.len() == 0 {
        d
    } else {
        with_line(
            with_message(d, label, color, list.drop_last()),
            LineSpec {
                text: sanitized(list.last()),
                color: Color::White,
                source: Some(
                    LabelSpec {
                        text: if list.len() == 1 {
                            label
                        } else {
                            ""@
                        },
                        color,
                    },
                ),
            },
        )
    }
}

/// The lines of a message that are shown: its beginning and its end, where it is long.
pub open spec fn abridged(list: Seq<Seq<char>>, name: Seq<char>) -> Seq<Seq<char>> {
    list.take(MESSAGE_HEAD_LINES as int).push(
        "… "@ + decimal((list.len() - MAX_MESSAGE_LINES) as nat) + " lines omitted from this "@
            + name + " message …"@,
    ) + list.skip(list.len() - MESSAGE_TAIL_LINES)
}

/// The dashboard with the message of an agent.
pub open spec fn with_agent_message(d: DashSpec, label: Seq<char>, name: Seq<char>, text: Seq<char>) -> DashSpec {
    let list = lines_of(text);
    if list.len() <= MAX_MESSAGE_LINES {
        with_message(d, label, Color::Cyan, list)
    } else {
        with_message(d, label, Color::Cyan, lines_of(joined(abridged(list, name), "\n"@)))
    }
}

/// The dashboard with something that an agent did.
pub open spec fn with_item(d: DashSpec, item: ItemView, h: HarnessView) -> DashSpec {
    match item {
        ItemView::Assistant(text) => with_agent_message(d, h.name, h.title, text),
        ItemView::OpenCode(text) => with_agent_message(d, "opencode"@, "OpenCode"@, text),
        ItemView::Codex(text) => with_agent_message(d, "codex"@, "Codex"@, text),
        ItemView::Reasoning(text) => with_message(d, "reason"@, Color::DarkGrey, lines_of(text)),
        ItemView::Subagent(text) => with_message(d, "agent"@, Color::Blue, lines_of(text)),
        ItemView::Tool(text) => with_message(d, "tool"@, Color::Yellow, lines_of(text)),
        ItemView::ToolResult(text) => with_message(d, "result"@, Color::DarkGrey, lines_of(text)),
        ItemView::Lifecycle(text) => with_message(d, "event"@, Color::Magenta, lines_of(text)),
        ItemView::Raw(text) => with_message(d, "json"@, Color::DarkGrey, lines_of(text)),
    }
}

proof fn lemma_first_filled(panels: Seq<PanelSpec>, from: int)
    requires
        0 <= from,
    ensures
        first_filled(panels, from) matches Some(i) ==> from <= i < panels.len()
            && panels[i].lines.len() > 0,
        first_filled(panels, from) is None ==> forall|k: int|
            from <= k < panels.len() ==> (#[trigger] panels[k]).lines.len() == 0,
    decreases panels.len() - from,
{
    if from < panels.len() && panels[from].lines.len() == 0 {
        lemma_first_filled(panels, from + 1);
    }
}

proof fn lemma_line_keeps(d: DashSpec, line: LineSpec)
    requires
        d.wf(),
    ensures
        with_line(d, line).wf(),
        with_line(d, line).panels.len() == d.panels.len(),
{
    if d.panels.len() > 0 {
        let p = d.panels.last();
        let e = with_last(
            d,
            PanelSpec { lines: p.lines.push(line), total_lines: one_more(p.total_lines), ..p },
        );
        lemma_first_filled(e.panels, 0);
        assert(e.panels[d.panels.len() - 1].lines.len() > 0);
    }
}

proof fn lemma_message_keeps(d: DashSpec, label: Seq<char>, color: Color, list: Seq<Seq<char>>)
    requires
        d.wf(),
    ensures
        with_message(d, label, color, list).wf(),
    decreases list.len(),
{
    if list.len() > 0 {
        lemma_message_keeps(d, label, color, list.drop_last());
        let source = LabelSpec {
            text: if list.len() == 1 {
                label
            } else {
                ""@
            },
            color,
        };
        lemma_line_keeps(
            with_message(d, label, color, list.drop_last()),
            LineSpec {
                text: sanitized(list.last()),
                color: Color::White,
                source: Some(source),
            },
        );
    }
}

/// How many lines some panels hold.
pub open spec fn line_total(panels: Seq<PanelSpec>) -> nat
    decreases panels.len(),
{
    if panels.len() == 0 {
        0
    } else {
        line_total(panels.drop_last()) + panels.last().lines.len()
    }
}

proof fn lemma_line_total_update(panels: Seq<PanelSpec>, i: int, p: PanelSpec)
    requires
        0 <= i < panels.len(),
    ensures
        line_total(panels.update(i, p)) == line_total(panels) - panels[i].lines.len()
            + p.lines.len(),
    decreases panels.len(),
{
    let t = panels.update(i, p);
    if i < panels.len() - 1 {
        assert(t.drop_last() =~= panels.drop_last().update(i, p));
        lemma_line_total_update(panels.drop_last(), i, p);
    } else {
        assert(t.drop_last() =~= panels.drop_last());
    }
}

/// The panels together never hold more lines than the bound: the count of the lines that
/// are kept stays true, and it stays within the bound.
pub proof fn law_display_is_bounded(d: DashSpec, line: LineSpec)
    requires
        d.wf(),
        d.retained_lines == line_total(d.panels),
    ensures
        with_line(d, line).retained_lines == line_total(with_line(d, line).panels),
        line_total(with_line(d, line).panels) <= MAX_DISPLAY_LINES,
{
    lemma_line_keeps(d, line);
    if d.panels.len() > 0 {
        let n = d.panels.len() - 1;
        let p = d.panels.last();
        let q = PanelSpec { lines: p.lines.push(line), total_lines: one_more(p.total_lines), ..p };
        let e = with_last(d, q);
        lemma_line_total_update(d.panels, n, q);
        lemma_first_filled(e.panels, 0);
        assert(e.panels[n].lines.len() > 0);
        if d.retained_lines + 1 > MAX_DISPLAY_LINES {
            let i = first_filled(e.panels, 0)->0;
            let o = e.panels[i];
            lemma_line_total_update(
                e.panels,
                i,
                PanelSpec {
                    lines: o.lines.skip(1),
                    dropped_lines: one_more(o.dropped_lines),
                    ..o
                },
            );
        }
    }
}

/// A key.
#[derive(Debug, Clone, Copy, PartialEq, Eq, Structural)]
pub enum KeyCode {
    Char(char),
    Enter,
    Esc,
    Backspace,
    Tab,
    BackTab,
    Left,
    Right,
    Up,
    Down,
    PageUp,
    PageDown,
    Home,
    End,
    Other,
}

/// A key as it is struck: whether it goes down, whether the control key is held, and whether
/// no other than the shift key is.
#[derive(Debug, Clone, Copy, PartialEq, Eq, Structural)]
pub struct KeyEvent {
    pub code: KeyCode,
    pub press: bool,
    pub control: bool,
    pub typing: bool,
}

/// What the mouse does.
#[derive(Debug, Clone, Copy, PartialEq, Eq, Structural)]
pub enum MouseKind {
    Down,
    Drag,
    Up,
    ScrollUp,
    ScrollDown,
    Other,
}

#[derive(Debug, Clone, Copy, PartialEq, Eq, Structural)]
pub struct MouseEvent {
    pub kind: MouseKind,
    pub column: u16,
    pub row: u16,
}

/// What the terminal reports.
#[derive(Debug, Clone)]
pub enum Event {
    Key(KeyEvent),
    Mouse(MouseEvent),
    Paste(String),
    Resize,
    Other,
}

pub enum EventSpec {
    Key(KeyEvent),
    Mouse(MouseEvent),
    Paste(Seq<char>),
    Resize,
    Other,
}

impl View for Event {
    type V = EventSpec;

    open spec fn view(&self) -> EventSpec {
        match self {
            Event::Key(key) => EventSpec::Key(*key),
            Event::Mouse(mouse) => EventSpec::Mouse(*mouse),
            Event::Paste(text) => EventSpec::Paste(text@),
            Event::Resize => EventSpec::Resize,
            Event::Other => EventSpec::Other,
        }
    }
}

/// The dashboard that has to be drawn again.
pub open spec fn soiled(d: DashSpec) -> DashSpec {
    DashSpec { dirty: true, ..d }
}

/// The dashboard with a one-line message.
pub open spec fn told(d: DashSpec, label: Seq<char>, color: Color, text: Seq<char>) -> DashSpec {
    with_message(d, label, color, lines_of(text))
}

pub const PAUSING: &'static str = "Pausing now; the current phase checkpoint will be preserved";

pub const WILL_PAUSE: &'static str = "Will pause after the current OpenSpec change completes";

pub const ESCALATING: &'static str = "Stopping the local worker and requesting frontier replanning";

pub const COMPACT_SENT: &'static str =
    "Requested mid-command compaction; interrupting the active agent first";

pub const CONTEXT_SENT: &'static str =
    "Requested context inspection; interrupting the active agent first";

pub const FRONTIER_OFF: &'static str =
    "Frontier replanning is disabled for this local-only workflow";

pub const FRONTIER_LATER: &'static str =
    "Frontier replanning is available only during Explore, Propose, Apply, Verify, or Repair";

/// What a wish that is confirmed comes to.
pub open spec fn confirmed(d: DashSpec, action: PendingConfirmation) -> (DashSpec, ControlView) {
    match action {
        PendingConfirmation::Pause => (
            told(d, "pause"@, Color::Magenta, PAUSING@),
            ControlView::Pause,
        ),
        PendingConfirmation::StopAfterIteration => (
            told(
                DashSpec { stop_after_iteration: true, ..d },
                "campaign"@,
                Color::Magenta,
                WILL_PAUSE@,
            ),
            ControlView::Idle,
        ),
        PendingConfirmation::Escalate => (
            told(d, "frontier"@, Color::Magenta, ESCALATING@),
            ControlView::Escalate,
        ),
        PendingConfirmation::Compact => (
            told(
                DashSpec { compact_requested: true, ..d },
                "compact"@,
                Color::Magenta,
                COMPACT_SENT@,
            ),
            ControlView::Compact,
        ),
        PendingConfirmation::Context => (
            told(
                DashSpec { context_requested: true, ..d },
                "context"@,
                Color::Magenta,
                CONTEXT_SENT@,
            ),
            ControlView::Context,
        ),
    }
}

/// What an event does while a wish is to be confirmed: any key answers, and only one agrees.
pub open spec fn answered(d: DashSpec, event: EventSpec) -> (DashSpec, ControlView) {
    match event {
        EventSpec::Resize => (soiled(d), ControlView::Idle),
        EventSpec::Key(key) if key.press && d.pending_confirmation is Some => {
            let e = DashSpec { pending_confirmation: None, dirty: true, ..d };
            if key.code == KeyCode::Char('y') || key.code == KeyCode::Char('Y') {
                confirmed(e, d.pending_confirmation->0)
            } else {
                (e, ControlView::Idle)
            }
        },
        _ => (d, ControlView::Idle),
    }
}

/// What an event does while the viewer writes a message.
pub open spec fn written(d: DashSpec, event: EventSpec) -> (DashSpec, ControlView) {
    let input = match d.injection_input {
        Some(input) => input,
        None => ""@,
    };
    match event {
        EventSpec::Key(key) if key.press => match key.code {
            KeyCode::Enter => {
                let e = DashSpec { injection_input: None, dirty: true, ..d };
                if trimmed(input).len() == 0 {
                    (e, ControlView::Idle)
                } else {
                    (
                        told(e, "steer"@, Color::Magenta, "Requested: "@ + input),
                        ControlView::Inject(input),
                    )
                }
            },
            KeyCode::Esc => (
                DashSpec { injection_input: None, dirty: true, ..d },
                ControlView::Idle,
            ),
            KeyCode::Backspace => (
                DashSpec {
                    injection_input: match d.injection_input {
                        Some(input) => Some(
                            if input.len() == 0 {
                                input
                            } else {
                                input.drop_last()
                            },
                        ),
                        None => None,
                    },
                    dirty: true,
                    ..d
                },
                ControlView::Idle,
            ),
            KeyCode::Char(c) if key.typing => (
                DashSpec {
                    injection_input: match d.injection_input {
                        Some(input) => Some(input.push(c)),
                        None => None,
                    },
                    dirty: true,
                    ..d
                },
                ControlView::Idle,
            ),
            _ => (d, ControlView::Idle),
        },
        EventSpec::Paste(text) => (
            DashSpec {
                injection_input: match d.injection_input {
                    Some(input) => Some(input + text),
                    None => None,
                },
                dirty: true,
                ..d
            },
            ControlView::Idle,
        ),
        EventSpec::Resize => (soiled(d), ControlView::Idle),
        _ => (d, ControlView::Idle),
    }
}

/// The last panel that runs, from the end of the first `n`.
pub open spec fn running_panel(panels: Seq<PanelSpec>) -> Option<PanelSpec>
    decreases panels.len(),
{
    if panels.len() == 0 {
        None
    } else if panels.last().status == PhaseStatus::Running {
        Some(panels.last())
    } else {
        running_panel(panels.drop_last())
    }
}

/// Whether a phase can be handed to the frontier model.
pub open spec fn escalatable(title: Seq<char>) -> bool {
    title == "Explore"@ || title == "Propose"@ || title == "Apply"@ || title == "Verify"@ || title
        == "Repair"@
}

/// Whether the frontier model can be asked for now.
pub open spec fn frontier_open(d: DashSpec) -> bool {
    d.frontier_enabled && match running_panel(d.panels) {
        Some(panel) => escalatable(panel.title),
        None => false,
    }
}

/// The dashboard with the selected panel opened or closed.
pub open spec fn with_expansion(d: DashSpec, expanded: bool) -> DashSpec {
    if d.selected_panel < d.panels.len() {
        DashSpec {
            panels: d.panels.update(
                d.selected_panel as int,
                PanelSpec { expanded, ..d.panels[d.selected_panel as int] },
            ),
            ensure_selected: true,
            follow_latest: false,
            dirty: true,
            ..d
        }
    } else {
        d
    }
}

/// The dashboard with the selected panel opened, or closed if it was open.
pub open spec fn toggled(d: DashSpec) -> DashSpec {
    with_expansion(d, !d.panels[d.selected_panel as int].expanded)
}

/// The dashboard with another panel selected.
pub open spec fn with_selection(d: DashSpec, panel: usize) -> DashSpec {
    DashSpec {
        selected_panel: panel,
        ensure_selected: true,
        follow_latest: false,
        dirty: true,
        ..d
    }
}

pub open spec fn next_selected(d: DashSpec) -> DashSpec {
    if d.panels.len() == 0 {
        d
    } else {
        with_selection(d, ((d.selected_panel + 1) % d.panels.len() as int) as usize)
    }
}

pub open spec fn previous_selected(d: DashSpec) -> DashSpec {
    if d.panels.len() == 0 {
        d
    } else if d.selected_panel == 0 {
        with_selection(d, (d.panels.len() - 1) as usize)
    } else {
        with_selection(d, (d.selected_panel - 1) as usize)
    }
}

pub open spec fn scrolled_up(d: DashSpec, amount: usize) -> DashSpec {
    DashSpec {
        viewport_start: if d.viewport_start <= amount {
            0
        } else {
            (d.viewport_start - amount) as usize
        },
        follow_latest: false,
        dirty: true,
        ..d
    }
}

/// The position further down, not beyond the end where that is known.
pub open spec fn further(d: DashSpec, amount: usize) -> usize {
    let limit = match d.scrollbar {
        Some(bar) => bar.max_position,
        None => usize::MAX,
    };
    if d.viewport_start + amount > limit {
        limit
    } else {
        (d.viewport_start + amount) as usize
    }
}

pub open spec fn scrolled_down(d: DashSpec, amount: usize) -> DashSpec {
    DashSpec {
        viewport_start: further(d, amount),
        follow_latest: d.scrollbar is Some && further(d, amount) == d.scrollbar->0.max_position,
        dirty: true,
        ..d
    }
}

/// The dashboard at a position of its scrollbar.
pub open spec fn scrolled_to(d: DashSpec, position: int) -> DashSpec {
    match d.scrollbar {
        None => d,
        Some(bar) => {
            let at = if position > bar.max_position {
                bar.max_position
            } else {
                position as usize
            };
            DashSpec {
                viewport_start: at,
                follow_latest: at == bar.max_position,
                dirty: true,
                ..d
            }
        },
    }
}

/// What the mouse does to the scrollbar, and whether that is all it does: its ends move by
/// one line, its thumb is dragged, and elsewhere it jumps.
pub open spec fn bar_moved(d: DashSpec, mouse: MouseEvent) -> (DashSpec, bool) {
    match d.scrollbar {
        None => (DashSpec { scrollbar_drag: None, ..d }, false),
        Some(bar) => match mouse.kind {
            MouseKind::Down => if mouse.column == bar.column && bar.covers(mouse.row as int) {
                if mouse.row == bar.top {
                    (scrolled_to(d, if d.viewport_start == 0 {
                        0
                    } else {
                        d.viewport_start - 1
                    }), true)
                } else if mouse.row == bar.bottom() {
                    (scrolled_to(d, d.viewport_start + 1), true)
                } else if bar.thumb_covers(mouse.row as int) {
                    (
                        DashSpec { scrollbar_drag: Some((mouse.row - bar.thumb_top) as u16), ..d },
                        true,
                    )
                } else {
                    let grab = (bar.thumb_height / 2) as u16;
                    (
                        scrolled_to(
                            DashSpec { scrollbar_drag: Some(grab), ..d },
                            dragged_position(bar, mouse.row, grab),
                        ),
                        true,
                    )
                }
            } else {
                (d, false)
            },
            MouseKind::Drag => match d.scrollbar_drag {
                Some(grab) => (scrolled_to(d, dragged_position(bar, mouse.row, grab)), true),
                None => (d, false),
            },
            MouseKind::Up => if d.scrollbar_drag is Some {
                (DashSpec { scrollbar_drag: None, ..d }, true)
            } else {
                (d, false)
            },
            _ => (d, false),
        },
    }
}

/// The panel whose heading stands in a row.
pub open spec fn heading_at(rows: Seq<(u16, usize)>, row: u16, from: int) -> Option<usize>
    decreases rows.len() - from,
{
    if from < 0 || from >= rows.len() {
        None
    } else if rows[from].0 == row {
        Some(rows[from].1)
    } else {
        heading_at(rows, row, from + 1)
    }
}

/// The dashboard with a wish that has to be confirmed.
pub open spec fn asking(d: DashSpec, action: PendingConfirmation) -> DashSpec {
    DashSpec { pending_confirmation: Some(action), dirty: true, ..d }
}

/// How far a page is.
pub open spec fn page(body_height: usize) -> usize {
    if body_height == 0 {
        1
    } else {
        body_height
    }
}

/// What a key does.
pub open spec fn struck(d: DashSpec, code: KeyCode, body_height: usize) -> DashSpec {
    match code {
        KeyCode::Char(c) => if c == 'q' && d.campaign is Some {
            asking(d, PendingConfirmation::StopAfterIteration)
        } else if c == 'p' {
            asking(d, PendingConfirmation::Pause)
        } else if c == 'f' {
            if !d.frontier_enabled {
                told(d, "frontier"@, Color::Yellow, FRONTIER_OFF@)
            } else if !frontier_open(d) {
                told(d, "frontier"@, Color::Yellow, FRONTIER_LATER@)
            } else {
                asking(d, PendingConfirmation::Escalate)
            }
        } else if c == 'c' && !d.compact_requested {
            asking(d, PendingConfirmation::Compact)
        } else if c == 'C' && !d.context_requested {
            asking(d, PendingConfirmation::Context)
        } else if c == 'i' {
            DashSpec { injection_input: Some(Seq::empty()), dirty: true, ..d }
        } else if c == ' ' || c == 'o' {
            toggled(d)
        } else {
            d
        },
        KeyCode::Enter => toggled(d),
        KeyCode::Tab => next_selected(d),
        KeyCode::Right => next_selected(d),
        KeyCode::BackTab => previous_selected(d),
        KeyCode::Left => previous_selected(d),
        KeyCode::Esc => with_expansion(d, false),
        KeyCode::Up => scrolled_up(d, 1),
        KeyCode::Down => scrolled_down(d, 1),
        KeyCode::PageUp => scrolled_up(d, page(body_height)),
        KeyCode::PageDown => scrolled_down(d, page(body_height)),
        KeyCode::Home => DashSpec {
            viewport_start: 0,
            follow_latest: false,
            dirty: true,
            ..d
        },
        KeyCode::End => DashSpec { follow_latest: true, dirty: true, ..d },
        _ => d,
    }
}

/// What an event does to a dashboard that waits for nothing.
pub open spec fn browsed(d: DashSpec, event: EventSpec, body_height: usize) -> DashSpec {
    match event {
        EventSpec::Key(key) => if key.press {
            struck(d, key.code, body_height)
        } else {
            d
        },
        EventSpec::Mouse(mouse) => {
            let moved = bar_moved(d, mouse);
            if moved.1 {
                moved.0
            } else {
                match mouse.kind {
                    MouseKind::Down => match heading_at(d.heading_rows, mouse.row, 0) {
                        Some(panel) => toggled(DashSpec { selected_panel: panel, ..moved.0 }),
                        None => moved.0,
                    },
                    MouseKind::ScrollUp => scrolled_up(moved.0, 3),
                    MouseKind::ScrollDown => scrolled_down(moved.0, 3),
                    _ => moved.0,
                }
            }
        },
        EventSpec::Resize => soiled(d),
        _ => d,
    }
}

/// Whether an event is the one that stops the run.
pub open spec fn interrupts(event: EventSpec) -> bool {
    event matches EventSpec::Key(key) && key.press && key.control && (key.code == KeyCode::Char('c')
        || key.code == KeyCode::Char('C'))
}

/// What an event does to the dashboard, and what it asks of the stage.
pub open spec fn handled(d: DashSpec, event: EventSpec, body_height: usize) -> (
    DashSpec,
    ControlView,
) {
    if interrupts(event) {
        (d, ControlView::Interrupt)
    } else if d.injection_input is Some {
        written(d, event)
    } else if d.pending_confirmation is Some {
        answered(d, event)
    } else {
        (browsed(d, event, body_height), ControlView::Idle)
    }
}

/// Nothing that stops or interrupts an agent happens without a confirmation, but for the key
/// that stops the run and a message that the viewer wrote.
pub proof fn law_interruptions_are_confirmed(d: DashSpec, event: EventSpec, body_height: usize)
    requires
        d.pending_confirmation is None,
    ensures
        handled(d, event, body_height).1 is Idle || handled(d, event, body_height).1 is Interrupt
            || handled(d, event, body_height).1 is Inject,
{
}

/// A compaction is asked for at most once until an agent begins again.
#[verifier::rlimit(40)]
pub proof fn law_one_compaction_at_a_time(d: DashSpec, event: EventSpec, body_height: usize)
    requires
        d.compact_requested,
        d.pending_confirmation is None,
        d.injection_input is None,
    ensures
        handled(d, event, body_height).0.pending_confirmation != Some(PendingConfirmation::Compact),
        handled(d, event, body_height).0.compact_requested,
{
    lemma_told_keeps(d, "frontier"@, Color::Yellow, FRONTIER_OFF@);
    lemma_told_keeps(d, "frontier"@, Color::Yellow, FRONTIER_LATER@);
}

proof fn lemma_told_keeps(d: DashSpec, label: Seq<char>, color: Color, text: Seq<char>)
    ensures
        told(d, label, color, text).pending_confirmation == d.pending_confirmation,
        told(d, label, color, text).compact_requested == d.compact_requested,
{
    lemma_message_only_adds(d, label, color, lines_of(text));
}

proof fn lemma_message_only_adds(d: DashSpec, label: Seq<char>, color: Color, list: Seq<Seq<char>>)
    ensures
        with_message(d, label, color, list).pending_confirmation == d.pending_confirmation,
        with_message(d, label, color, list).compact_requested == d.compact_requested,
    decreases list.len(),
{
    if list.len() > 0 {
        lemma_message_only_adds(d, label, color, list.drop_last());
    }
}

pub fn sanitize(text: &str) -> (r: String)
    ensures
        r@ == sanitized(text@),
{
    let v = chars_of(text);
    let mut out = "".to_owned();
    let mut i: usize = 0;
    proof {
        reveal_strlit("");
        assert(text@.take(0) =~= Seq::empty());
        assert(out@ =~= sanitized(text@.take(0)));
    }
    while i < v.len()
        invariant
            v@ == text@,
            i <= v@.len(),
            out@ == sanitized(text@.take(i as int)),
        decreases v@.len() - i,
    {
        proof {
            let upto = text@.take(i + 1);
            assert(upto.drop_last() =~= text@.take(i as int));
            assert(upto.last() == v@[i as int]);
        }
        if v[i] == '\t' {
            out.push(' ');
        } else if !is_control(v[i]) {
            out.push(v[i]);
        }
        i += 1;
    }
    assert(text@.take(i as int) =~= text@);
    out
}

impl StreamDashboard {
    /// A dashboard that is entered.
    pub fn enter(
        repo: String,
        change_name: Option<String>,
        campaign: Option<CampaignDashboardView>,
        now: u64,
    ) -> (r: StreamDashboard)
        ensures
            r@ == entered(repo@, text_option(change_name), seen(campaign), now),
            r@.wf(),
    {
        let r = StreamDashboard {
            repo,
            change_name,
            campaign,
            activity: "Preparing workflow".to_owned(),
            panels: Vec::new(),
            selected_panel: 0,
            viewport_start: 0,
            follow_latest: true,
            ensure_selected: false,
            heading_rows: Vec::new(),
            scrollbar: None,
            scrollbar_drag: None,
            retained_lines: 0,
            spinner_index: 0,
            last_tick: now,
            last_draw: now,
            last_size: None,
            last_footer: None,
            dirty: true,
            active: true,
            compact_requested: false,
            context_requested: false,
            injection_input: None,
            pending_confirmation: None,
            stop_after_iteration: false,
            frontier_enabled: true,
        };
        assert(r@.panels =~= Seq::empty());
        assert(r@.heading_rows =~= Seq::empty());
        r
    }

    pub fn set_campaign(&mut self, campaign: Option<CampaignDashboardView>)
        requires
            old(self)@.wf(),
        ensures
            final(self)@ == with_campaign(old(self)@, seen(campaign)),
            final(self)@.wf(),
    {
        let was = match &self.campaign {
            Some(c) => Some(c.iteration),
            None => None,
        };
        let is_now = match &campaign {
            Some(c) => Some(c.iteration),
            None => None,
        };
        let changed = match (was, is_now) {
            (Some(a), Some(b)) => a != b,
            (None, None) => false,
            _ => true,
        };
        self.campaign = campaign;
        if changed {
            self.panels = Vec::new();
            self.selected_panel = 0;
            self.viewport_start = 0;
            self.follow_latest = true;
            self.ensure_selected = false;
            self.heading_rows = Vec::new();
            self.retained_lines = 0;
            self.change_name = None;
            self.stop_after_iteration = false;
            assert(self@.panels =~= Seq::empty());
            assert(self@.heading_rows =~= Seq::empty());
        }
        self.dirty = true;
    }

    pub fn set_frontier_enabled(&mut self, enabled: bool)
        ensures
            final(self)@ == (DashSpec { frontier_enabled: enabled, dirty: true, ..old(self)@ }),
    {
        self.frontier_enabled = enabled;
        self.dirty = true;
    }

    pub fn stop_after_iteration_requested(&self) -> (r: bool)
        ensures
            r == self@.stop_after_iteration,
    {
        self.stop_after_iteration
    }

    pub fn set_change_name(&mut self, change_name: Option<String>)
        ensures
            final(self)@ == (DashSpec {
                change_name: text_option(change_name),
                dirty: true,
                ..old(self)@
            }),
    {
        self.change_name = change_name;
        self.dirty = true;
    }

    fn count_occurrences(&self, current: usize, title: &str) -> (r: usize)
        ensures
            r == occurrences(self@.panels, current, title@),
            r <= self.panels@.len(),
    {
        let ghost all = self@.panels;
        let mut n: usize = 0;
        let mut i: usize = 0;
        assert(all.take(0) =~= Seq::empty());
        while i < self.panels.len()
            invariant
                i <= self.panels@.len(),
                all == self@.panels,
                n <= i,
                n == occurrences(all.take(i as int), current, title@),
            decreases self.panels@.len() - i,
        {
            proof {
                let upto = all.take(i + 1);
                assert(upto.drop_last() =~= all.take(i as int));
                assert(upto.last() == self.panels@[i as int]@);
            }
            if self.panels[i].stage.current == current && equal(
                self.panels[i].stage.title.as_str(),
                title,
            ) {
                n += 1;
            }
            i += 1;
        }
        assert(all.take(i as int) =~= all);
        n
    }

    /// Begins a phase.
    pub fn set_stage(&mut self, stage: StageView, now: u64)
        requires
            old(self)@.wf(),
            old(self)@.panels.len() < usize::MAX,
        ensures
            final(self)@ == staged(
                old(self)@,
                stage.current,
                stage.total,
                stage.title@,
                stage.started_at,
                now,
            ),
            final(self)@.wf(),
    {
        let ghost d = self@;
        let count: usize = self.panels.len();
        if count > 0 {
            let ghost was = self.panels@;
            if self.panels[count - 1].status == PhaseStatus::Running {
                self.panels[count - 1].status = PhaseStatus::Complete;
            }
            if self.panels[count - 1].finished_at.is_none() {
                self.panels[count - 1].finished_at = Some(now);
            }
            self.panels[count - 1].expanded = false;
            assert(seen_all(self.panels@) =~= d.panels.update(
                count - 1,
                closed_panel(d.panels.last(), now),
            ));
        }
        let ghost closed = self@.panels;
        let occurrence: usize = self.count_occurrences(stage.current, stage.title.as_str()) + 1;
        let panel = PhasePanel {
            stage,
            finished_at: None,
            occurrence,
            status: PhaseStatus::Running,
            lines: Vec::new(),
            total_lines: 0,
            dropped_lines: 0,
            expanded: true,
        };
        assert(panel@.lines =~= Seq::empty());
        proof {
            lemma_seen_all_push(self.panels@, panel);
        }
        self.panels.push(panel);
        self.selected_panel = count;
        self.activity = "Preparing phase".to_owned();
        self.follow_latest = true;
        self.ensure_selected = true;
        self.dirty = true;
    }

    /// Begins to show an agent's work.
    pub fn start_stream(&mut self, message: &str)
        requires
            old(self)@.wf(),
        ensures
            final(self)@ == streaming(old(self)@, message@),
            final(self)@.wf(),
    {
        let ghost d = self@;
        self.activity = message.to_owned();
        self.compact_requested = false;
        self.context_requested = false;
        self.injection_input = None;
        self.pending_confirmation = None;
        let count: usize = self.panels.len();
        if count > 0 {
            self.panels[count - 1].status = PhaseStatus::Running;
            self.panels[count - 1].finished_at = None;
            assert(self@.panels =~= d.panels.update(
                count - 1,
                PanelSpec { status: PhaseStatus::Running, finished_at: None, ..d.panels.last() },
            ));
        }
        self.dirty = true;
    }

    fn judge(&mut self, success: bool, now: u64)
        requires
            old(self)@.wf(),
        ensures
            final(self)@ == judged(old(self)@, success, now),
            final(self)@.wf(),
    {
        let ghost d = self@;
        let count: usize = self.panels.len();
        if !success && count > 0 {
            self.panels[count - 1].status = PhaseStatus::Failed;
            self.panels[count - 1].finished_at = Some(now);
            assert(self@.panels =~= d.panels.update(
                count - 1,
                PanelSpec { status: PhaseStatus::Failed, finished_at: Some(now), ..d.panels.last() },
            ));
        }
    }

    /// Ends to show an agent's work.
    pub fn finish_stream(&mut self, success: bool, message: &str, now: u64)
        requires
            old(self)@.wf(),
        ensures
            final(self)@ == soiled(
                judged(DashSpec { activity: message@, ..old(self)@ }, success, now),
            ),
            final(self)@.wf(),
    {
        self.activity = message.to_owned();
        self.judge(success, now);
        self.dirty = true;
    }

    pub fn start_activity(&mut self, message: &str)
        ensures
            final(self)@ == (DashSpec { activity: message@, dirty: true, ..old(self)@ }),
    {
        self.activity = message.to_owned();
        self.dirty = true;
    }

    /// Says how an activity went.
    pub fn finish_activity(&mut self, success: bool, message: &str, now: u64)
        requires
            old(self)@.wf(),
        ensures
            final(self)@ == judged(
                DashSpec {
                    activity: message@,
                    ..with_line(
                        old(self)@,
                        LineSpec {
                            text: "  event "@ + if success {
                                "✓"@
                            } else {
                                "✗"@
                            } + " "@ + sanitized(message@),
                            color: if success {
                                Color::Green
                            } else {
                                Color::Red
                            },
                            source: None,
                        },
                    )
                },
                success,
                now,
            ),
            final(self)@.wf(),
    {
        let marker = if success {
            "✓"
        } else {
            "✗"
        };
        let color = if success {
            Color::Green
        } else {
            Color::Red
        };
        let clean = sanitize(message);
        let text = crate::text::cat4("  event ", marker, " ", clean.as_str());
        self.push_line(DisplayLine { text, color, source: None });
        self.activity = message.to_owned();
        self.judge(success, now);
    }

    fn trim_oldest_line(&mut self)
        requires
            old(self)@.retained_lines >= 1,
        ensures
            final(self)@ == trimmed_dash(old(self)@),
    {
        if self.retained_lines <= MAX_DISPLAY_LINES {
            return;
        }
        let ghost d = self@;
        let mut i: usize = 0;
        while i < self.panels.len() && self.panels[i].lines.len() == 0
            invariant
                i <= self.panels@.len(),
                self@ == d,
                first_filled(d.panels, 0) == first_filled(d.panels, i as int),
            decreases self.panels@.len() - i,
        {
            assert(d.panels[i as int] == self.panels@[i as int]@);
            assert(seen_all(self.panels@[i as int].lines@).len() == 0);
            i += 1;
        }
        if i < self.panels.len() {
            assert(d.panels[i as int] == self.panels@[i as int]@);
            let ghost was = self.panels@[i as int];
            assert(was@.lines.len() == was.lines@.len());
            self.panels[i].lines.remove(0);
            self.panels[i].dropped_lines = count_one(self.panels[i].dropped_lines);
            self.retained_lines = self.retained_lines - 1;
            proof {
                assert(seen_all(self.panels@[i as int].lines@) =~= was@.lines.skip(1));
                assert(self@.panels =~= d.panels.update(
                    i as int,
                    PanelSpec {
                        lines: was@.lines.skip(1),
                        dropped_lines: one_more(was@.dropped_lines),
                        ..was@
                    },
                ));
            }
        }
    }

    fn add_line(&mut self, line: DisplayLine)
        requires
            old(self)@.panels.len() > 0,
            old(self)@.retained_lines <= MAX_DISPLAY_LINES,
        ensures
            final(self)@ == with_last(
                DashSpec { retained_lines: (old(self)@.retained_lines + 1) as usize, ..old(self)@ },
                PanelSpec {
                    lines: old(self)@.panels.last().lines.push(line@),
                    total_lines: one_more(old(self)@.panels.last().total_lines),
                    ..old(self)@.panels.last()
                },
            ),
    {
        let ghost panels = self@.panels;
        let count: usize = self.panels.len();
        let ghost was = self.panels@[count - 1];
        self.panels[count - 1].total_lines = count_one(self.panels[count - 1].total_lines);
        self.panels[count - 1].lines.push(line);
        self.retained_lines = self.retained_lines + 1;
        proof {
            lemma_seen_all_push(was.lines@, line);
            assert(panels.last() == was@);
            assert(seen_all(self.panels@) =~= panels.update(
                count - 1,
                PanelSpec {
                    lines: was@.lines.push(line@),
                    total_lines: one_more(was@.total_lines),
                    ..was@
                },
            ));
        }
    }

    fn push_line(&mut self, line: DisplayLine)
        requires
            old(self)@.wf(),
        ensures
            final(self)@ == with_line(old(self)@, line@),
            final(self)@.wf(),
    {
        proof {
            lemma_line_keeps(self@, line@);
        }
        if self.panels.len() == 0 {
            return;
        }
        self.add_line(line);
        self.trim_oldest_line();
        self.dirty = true;
    }

    /// Shows a message.
    pub fn push_message(&mut self, label: &str, color: Color, text: &str)
        requires
            old(self)@.wf(),
        ensures
            final(self)@ == told(old(self)@, label@, color, text@),
            final(self)@.wf(),
    {
        let list = lines(text);
        let ghost all = texts(list@);
        let ghost d = self@;
        let mut i: usize = 0;
        assert(all.take(0) =~= Seq::empty());
        while i < list.len()
            invariant
                i <= list@.len(),
                all == texts(list@),
                self@ == with_message(d, label@, color, all.take(i as int)),
                self@.wf(),
            decreases list@.len() - i,
        {
            proof {
                let upto = all.take(i + 1);
                assert(upto.drop_last() =~= all.take(i as int));
                assert(upto.last() == list@[i as int]@);
            }
            let name = if i == 0 {
                label.to_owned()
            } else {
                "".to_owned()
            };
            self.push_line(
                DisplayLine {
                    text: sanitize(list[i].as_str()),
                    color: Color::White,
                    source: Some(SourceLabel { text: name, color }),
                },
            );
            i += 1;
        }
        assert(all.take(i as int) =~= all);
    }

    fn push_agent_message(&mut self, label: &str, display_name: &str, text: &str)
        requires
            old(self)@.wf(),
        ensures
            final(self)@ == with_agent_message(old(self)@, label@, display_name@, text@),
            final(self)@.wf(),
    {
        let list = lines(text);
        let ghost all = texts(list@);
        if list.len() <= MAX_MESSAGE_LINES {
            self.push_message(label, Color::Cyan, text);
            return;
        }
        let omitted: usize = list.len() - MAX_MESSAGE_LINES;
        let mut shown: Vec<String> = Vec::new();
        let mut i: usize = 0;
        assert(texts(shown@) =~= all.take(0));
        while i < MESSAGE_HEAD_LINES
            invariant
                i <= MESSAGE_HEAD_LINES,
                MESSAGE_HEAD_LINES <= list@.len(),
                all == texts(list@),
                texts(shown@) == all.take(i as int),
            decreases MESSAGE_HEAD_LINES - i,
        {
            push_text(&mut shown, list[i].as_str());
            i += 1;
            assert(texts(shown@) =~= all.take(i as int));
        }
        let count = decimal_text(omitted as u64);
        let head = crate::text::cat5(
            "… ",
            count.as_str(),
            " lines omitted from this ",
            display_name,
            " message …",
        );
        push_text(&mut shown, head.as_str());
        let ghost first = texts(shown@);
        let start: usize = list.len() - MESSAGE_TAIL_LINES;
        let mut k: usize = start;
        assert(first =~= first + all.subrange(start as int, start as int));
        while k < list.len()
            invariant
                start <= k <= list@.len(),
                all == texts(list@),
                texts(shown@) == first + all.subrange(start as int, k as int),
            decreases list@.len() - k,
        {
            push_text(&mut shown, list[k].as_str());
            k += 1;
            assert(texts(shown@) =~= first + all.subrange(start as int, k as int));
        }
        assert(texts(shown@) =~= abridged(all, display_name@));
        let whole = join(&shown, "\n");
        self.push_message(label, Color::Cyan, whole.as_str());
    }

    /// Shows something that an agent did.
    pub fn push(&mut self, item: &StreamItem, harness: &Harness)
        requires
            old(self)@.wf(),
        ensures
            final(self)@ == with_item(old(self)@, item@, harness@),
            final(self)@.wf(),
    {
        match item {
            StreamItem::Assistant(text) => {
                self.push_agent_message(harness.name.as_str(), harness.title.as_str(), text.as_str());
            },
            StreamItem::OpenCode(text) => {
                self.push_agent_message("opencode", "OpenCode", text.as_str());
            },
            StreamItem::Codex(text) => {
                self.push_agent_message("codex", "Codex", text.as_str());
            },
            StreamItem::Reasoning(text) => {
                self.push_message("reason", Color::DarkGrey, text.as_str());
            },
            StreamItem::Subagent(text) => {
                self.push_message("agent", Color::Blue, text.as_str());
            },
            StreamItem::Tool(text) => {
                self.push_message("tool", Color::Yellow, text.as_str());
            },
            StreamItem::ToolResult(text) => {
                self.push_message("result", Color::DarkGrey, text.as_str());
            },
            StreamItem::Lifecycle(text) => {
                self.push_message("event", Color::Magenta, text.as_str());
            },
            StreamItem::Raw(text) => {
                self.push_message("json", Color::DarkGrey, text.as_str());
            },
        }
    }

    /// Lets the spinner turn, and says whether the dashboard has to be drawn.
    pub fn tick(&mut self, now: u64) -> (r: bool)
        requires
            old(self)@.wf(),
        ensures
            final(self)@ == if now >= old(self)@.last_tick && now - old(self)@.last_tick >= 90 {
                DashSpec {
                    spinner_index: ((old(self)@.spinner_index + 1) % SPINNER_FACES as int) as usize,
                    last_tick: now,
                    dirty: true,
                    ..old(self)@
                }
            } else {
                old(self)@
            },
            r == (final(self)@.dirty && now >= old(self)@.last_draw && now - old(self)@.last_draw
                >= 30),
            final(self)@.wf(),
    {
        if now >= self.last_tick && now - self.last_tick >= 90 {
            self.spinner_index = (self.spinner_index + 1) % SPINNER_FACES;
            self.last_tick = now;
            self.dirty = true;
        }
        self.dirty && now >= self.last_draw && now - self.last_draw >= 30
    }

    /// Leaves the dashboard, and says whether it was still shown: a phase that runs is
    /// complete.
    pub fn leave(&mut self, now: u64) -> (r: bool)
        requires
            old(self)@.wf(),
        ensures
            r == old(self)@.active,
            final(self)@ == if !old(self)@.active {
                old(self)@
            } else if old(self)@.panels.len() > 0 && old(self)@.panels.last().status
                == PhaseStatus::Running {
                with_last(
                    DashSpec { active: false, ..old(self)@ },
                    PanelSpec {
                        status: PhaseStatus::Complete,
                        finished_at: Some(now),
                        ..old(self)@.panels.last()
                    },
                )
            } else {
                DashSpec { active: false, ..old(self)@ }
            },
            final(self)@.wf(),
    {
        if !self.active {
            return false;
        }
        let ghost d = self@;
        let count: usize = self.panels.len();
        if count > 0 {
            assert(d.panels.last() == self.panels@[count - 1]@);
            if self.panels[count - 1].status == PhaseStatus::Running {
                self.panels[count - 1].status = PhaseStatus::Complete;
                self.panels[count - 1].finished_at = Some(now);
                assert(self@.panels =~= d.panels.update(
                    count - 1,
                    PanelSpec {
                        status: PhaseStatus::Complete,
                        finished_at: Some(now),
                        ..d.panels.last()
                    },
                ));
            }
        }
        self.active = false;
        true
    }

    fn request_confirmation(&mut self, action: PendingConfirmation)
        ensures
            final(self)@ == asking(old(self)@, action),
    {
        self.pending_confirmation = Some(action);
        self.dirty = true;
    }

    fn handle_confirmation_event(&mut self, event: &Event) -> (r: StreamControl)
        requires
            old(self)@.wf(),
        ensures
            (final(self)@, r@) == answered(old(self)@, event@),
            final(self)@.wf(),
    {
        let key = match event {
            Event::Key(key) => *key,
            Event::Resize => {
                self.dirty = true;
                return StreamControl::Idle;
            },
            _ => {
                return StreamControl::Idle;
            },
        };
        if !key.press {
            return StreamControl::Idle;
        }
        let action = match self.pending_confirmation {
            Some(action) => action,
            None => {
                return StreamControl::Idle;
            },
        };
        self.pending_confirmation = None;
        self.dirty = true;
        if !(key.code == KeyCode::Char('y') || key.code == KeyCode::Char('Y')) {
            return StreamControl::Idle;
        }
        match action {
            PendingConfirmation::Pause => {
                self.push_message("pause", Color::Magenta, PAUSING);
                StreamControl::Pause
            },
            PendingConfirmation::StopAfterIteration => {
                self.stop_after_iteration = true;
                self.push_message("campaign", Color::Magenta, WILL_PAUSE);
                StreamControl::Idle
            },
            PendingConfirmation::Escalate => {
                self.push_message("frontier", Color::Magenta, ESCALATING);
                StreamControl::Escalate
            },
            PendingConfirmation::Compact => {
                self.compact_requested = true;
                self.push_message("compact", Color::Magenta, COMPACT_SENT);
                StreamControl::Compact
            },
            PendingConfirmation::Context => {
                self.context_requested = true;
                self.push_message("context", Color::Magenta, CONTEXT_SENT);
                StreamControl::Context
            },
        }
    }

    fn frontier_available(&self) -> (r: bool)
        ensures
            r == frontier_open(self@),
    {
        let ghost all = self@.panels;
        let mut i: usize = self.panels.len();
        assert(all.take(i as int) =~= all);
        while i > 0
            invariant
                i <= self.panels@.len(),
                all == self@.panels,
                running_panel(all) == running_panel(all.take(i as int)),
            decreases i,
        {
            proof {
                let upto = all.take(i as int);
                assert(upto.last() == self.panels@[i - 1]@);
                assert(upto.drop_last() =~= all.take(i - 1));
            }
            if self.panels[i - 1].status == PhaseStatus::Running {
                let title = self.panels[i - 1].stage.title.as_str();
                return self.frontier_enabled && (equal(title, "Explore") || equal(title, "Propose")
                    || equal(title, "Apply") || equal(title, "Verify") || equal(title, "Repair"));
            }
            i -= 1;
        }
        false
    }

    fn handle_injection_event(&mut self, event: &Event) -> (r: StreamControl)
        requires
            old(self)@.wf(),
        ensures
            (final(self)@, r@) == written(old(self)@, event@),
            final(self)@.wf(),
    {
        match event {
            Event::Key(key) => {
                if !key.press {
                    return StreamControl::Idle;
                }
                match key.code {
                    KeyCode::Enter => {
                        let message = match &self.injection_input {
                            Some(input) => input.clone(),
                            None => "".to_owned(),
                        };
                        self.injection_input = None;
                        self.dirty = true;
                        let bare = trim(message.as_str());
                        if chars_of(bare.as_str()).len() == 0 {
                            return StreamControl::Idle;
                        }
                        let text = cat2("Requested: ", message.as_str());
                        self.push_message("steer", Color::Magenta, text.as_str());
                        return StreamControl::Inject(message);
                    },
                    KeyCode::Esc => {
                        self.injection_input = None;
                        self.dirty = true;
                    },
                    KeyCode::Backspace => {
                        let shorter = match &self.injection_input {
                            Some(input) => {
                                let v = chars_of(input.as_str());
                                if v.len() == 0 {
                                    Some(input.clone())
                                } else {
                                    let rest = string_of(&v, 0, v.len() - 1);
                                    assert(rest@ =~= input@.drop_last());
                                    Some(rest)
                                }
                            },
                            None => None,
                        };
                        self.injection_input = shorter;
                        self.dirty = true;
                    },
                    KeyCode::Char(c) => {
                        if key.typing {
                            let longer = match &self.injection_input {
                                Some(input) => {
                                    let mut text = input.clone();
                                    text.push(c);
                                    Some(text)
                                },
                                None => None,
                            };
                            self.injection_input = longer;
                            self.dirty = true;
                        }
                    },
                    _ => {},
                }
            },
            Event::Paste(text) => {
                let longer = match &self.injection_input {
                    Some(input) => Some(cat2(input.as_str(), text.as_str())),
                    None => None,
                };
                self.injection_input = longer;
                self.dirty = true;
            },
            Event::Resize => {
                self.dirty = true;
            },
            _ => {},
        }
        StreamControl::Idle
    }

    fn set_expansion(&mut self, expanded: bool)
        requires
            old(self)@.wf(),
        ensures
            final(self)@ == with_expansion(old(self)@, expanded),
            final(self)@.wf(),
    {
        let ghost d = self@;
        let i: usize = self.selected_panel;
        if i < self.panels.len() {
            self.panels[i].expanded = expanded;
            self.ensure_selected = true;
            self.follow_latest = false;
            self.dirty = true;
            assert(self@.panels =~= d.panels.update(
                i as int,
                PanelSpec { expanded, ..d.panels[i as int] },
            ));
        }
    }

    fn toggle_selected(&mut self)
        requires
            old(self)@.wf(),
        ensures
            final(self)@ == toggled(old(self)@),
            final(self)@.wf(),
    {
        let i: usize = self.selected_panel;
        if i < self.panels.len() {
            assert(self@.panels[i as int] == self.panels@[i as int]@);
            let open = self.panels[i].expanded;
            self.set_expansion(!open);
        }
    }

    fn select(&mut self, panel: usize)
        ensures
            final(self)@ == with_selection(old(self)@, panel),
    {
        self.selected_panel = panel;
        self.ensure_selected = true;
        self.follow_latest = false;
        self.dirty = true;
    }

    fn select_next(&mut self)
        requires
            old(self)@.wf(),
        ensures
            final(self)@ == next_selected(old(self)@),
            final(self)@.wf(),
    {
        let count: usize = self.panels.len();
        if count > 0 {
            let next: usize = if self.selected_panel + 1 == count {
                0
            } else {
                self.selected_panel + 1
            };
            proof {
                let n = count as int;
                let s = self.selected_panel + 1;
                if s == n {
                    assert(s % n == 0) by (nonlinear_arith)
                        requires
                            s == n,
                            n > 0,
                    ;
                } else {
                    assert(s % n == s) by (nonlinear_arith)
                        requires
                            0 <= s < n,
                    ;
                }
            }
            self.select(next);
        }
    }

    fn select_previous(&mut self)
        requires
            old(self)@.wf(),
        ensures
            final(self)@ == previous_selected(old(self)@),
            final(self)@.wf(),
    {
        let count: usize = self.panels.len();
        if count > 0 {
            let previous: usize = if self.selected_panel == 0 {
                count - 1
            } else {
                self.selected_panel - 1
            };
            self.select(previous);
        }
    }

    fn scroll_up(&mut self, amount: usize)
        ensures
            final(self)@ == scrolled_up(old(self)@, amount),
    {
        self.viewport_start = if self.viewport_start <= amount {
            0
        } else {
            self.viewport_start - amount
        };
        self.follow_latest = false;
        self.dirty = true;
    }

    fn scroll_down(&mut self, amount: usize)
        ensures
            final(self)@ == scrolled_down(old(self)@, amount),
    {
        let limit: usize = match self.scrollbar {
            Some(bar) => bar.max_position,
            None => usize::MAX,
        };
        let at: usize = match self.viewport_start.checked_add(amount) {
            Some(at) => if at > limit {
                limit
            } else {
                at
            },
            None => limit,
        };
        self.viewport_start = at;
        self.follow_latest = match self.scrollbar {
            Some(bar) => at == bar.max_position,
            None => false,
        };
        self.dirty = true;
    }

    fn set_scrollbar_position(&mut self, position: usize)
        ensures
            final(self)@ == scrolled_to(old(self)@, position as int),
    {
        if let Some(bar) = self.scrollbar {
            let at: usize = if position > bar.max_position {
                bar.max_position
            } else {
                position
            };
            self.viewport_start = at;
            self.follow_latest = at == bar.max_position;
            self.dirty = true;
        }
    }

    fn handle_scrollbar_mouse(&mut self, mouse: MouseEvent) -> (r: bool)
        ensures
            (final(self)@, r) == bar_moved(old(self)@, mouse),
    {
        let bar = match self.scrollbar {
            Some(bar) => bar,
            None => {
                self.scrollbar_drag = None;
                return false;
            },
        };
        match mouse.kind {
            MouseKind::Down => {
                if mouse.column != bar.column || !bar.is_at(mouse.row) {
                    return false;
                }
                if mouse.row == bar.top {
                    let at: usize = if self.viewport_start == 0 {
                        0
                    } else {
                        self.viewport_start - 1
                    };
                    self.set_scrollbar_position(at);
                } else if mouse.row == bar.last_row() {
                    let at: usize = match self.viewport_start.checked_add(1) {
                        Some(at) => at,
                        None => usize::MAX,
                    };
                    self.set_scrollbar_position(at);
                } else if bar.is_on_thumb(mouse.row) {
                    self.scrollbar_drag = Some(mouse.row - bar.thumb_top);
                } else {
                    let grab: u16 = bar.thumb_height / 2;
                    self.scrollbar_drag = Some(grab);
                    self.set_scrollbar_position(
                        scrollbar_position_for_row(bar, mouse.row, grab),
                    );
                }
                true
            },
            MouseKind::Drag => match self.scrollbar_drag {
                Some(grab) => {
                    self.set_scrollbar_position(
                        scrollbar_position_for_row(bar, mouse.row, grab),
                    );
                    true
                },
                None => false,
            },
            MouseKind::Up => {
                if self.scrollbar_drag.is_some() {
                    self.scrollbar_drag = None;
                    true
                } else {
                    false
                }
            },
            _ => false,
        }
    }

    fn handle_key(&mut self, code: KeyCode, body_height: usize)
        requires
            old(self)@.wf(),
        ensures
            final(self)@ == struck(old(self)@, code, body_height),
            final(self)@.wf(),
    {
        let far: usize = if body_height == 0 {
            1
        } else {
            body_height
        };
        match code {
            KeyCode::Char(c) => {
                if c == 'q' && self.campaign.is_some() {
                    self.request_confirmation(PendingConfirmation::StopAfterIteration);
                } else if c == 'p' {
                    self.request_confirmation(PendingConfirmation::Pause);
                } else if c == 'f' {
                    if !self.frontier_enabled {
                        self.push_message("frontier", Color::Yellow, FRONTIER_OFF);
                    } else if !self.frontier_available() {
                        self.push_message("frontier", Color::Yellow, FRONTIER_LATER);
                    } else {
                        self.request_confirmation(PendingConfirmation::Escalate);
                    }
                } else if c == 'c' && !self.compact_requested {
                    self.request_confirmation(PendingConfirmation::Compact);
                } else if c == 'C' && !self.context_requested {
                    self.request_confirmation(PendingConfirmation::Context);
                } else if c == 'i' {
                    proof {
                        reveal_strlit("");
                    }
                    let empty = "".to_owned();
                    assert(empty@ =~= Seq::empty());
                    self.injection_input = Some(empty);
                    self.dirty = true;
                } else if c == ' ' || c == 'o' {
                    self.toggle_selected();
                }
            },
            KeyCode::Enter => self.toggle_selected(),
            KeyCode::Tab => self.select_next(),
            KeyCode::Right => self.select_next(),
            KeyCode::BackTab => self.select_previous(),
            KeyCode::Left => self.select_previous(),
            KeyCode::Esc => self.set_expansion(false),
            KeyCode::Up => self.scroll_up(1),
            KeyCode::Down => self.scroll_down(1),
            KeyCode::PageUp => self.scroll_up(far),
            KeyCode::PageDown => self.scroll_down(far),
            KeyCode::Home => {
                self.viewport_start = 0;
                self.follow_latest = false;
                self.dirty = true;
            },
            KeyCode::End => {
                self.follow_latest = true;
                self.dirty = true;
            },
            _ => {},
        }
    }

    fn heading_in(&self, row: u16) -> (r: Option<usize>)
        requires
            self@.wf(),
        ensures
            r == heading_at(self@.heading_rows, row, 0),
            r is Some ==> r->0 < self@.panels.len(),
    {
        let mut i: usize = 0;
        while i < self.heading_rows.len()
            invariant
                i <= self.heading_rows@.len(),
                self@.wf(),
                heading_at(self@.heading_rows, row, 0) == heading_at(
                    self@.heading_rows,
                    row,
                    i as int,
                ),
            decreases self.heading_rows@.len() - i,
        {
            if self.heading_rows[i].0 == row {
                assert(self@.heading_rows[i as int].1 < self@.panels.len());
                return Some(self.heading_rows[i].1);
            }
            i += 1;
        }
        None
    }

    /// Takes what the terminal reports in, and gives what it asks of the stage.
    /// `body_height` is how many lines of the panels the terminal shows.
    pub fn handle_event(&mut self, event: &Event, body_height: usize) -> (r: StreamControl)
        requires
            old(self)@.wf(),
        ensures
            (final(self)@, r@) == handled(old(self)@, event@, body_height),
            final(self)@.wf(),
    {
        if let Event::Key(key) = event {
            if key.press && key.control && (key.code == KeyCode::Char('c') || key.code
                == KeyCode::Char('C')) {
                return StreamControl::Interrupt;
            }
        }
        if self.injection_input.is_some() {
            return self.handle_injection_event(event);
        }
        if self.pending_confirmation.is_some() {
            return self.handle_confirmation_event(event);
        }
        match event {
            Event::Key(key) => {
                if key.press {
                    self.handle_key(key.code, body_height);
                }
            },
            Event::Mouse(mouse) => {
                if self.handle_scrollbar_mouse(*mouse) {
                    return StreamControl::Idle;
                }
                match mouse.kind {
                    MouseKind::Down => {
                        if let Some(panel) = self.heading_in(mouse.row) {
                            self.selected_panel = panel;
                            self.toggle_selected();
                        }
                    },
                    MouseKind::ScrollUp => self.scroll_up(3),
                    MouseKind::ScrollDown => self.scroll_down(3),
                    _ => {},
                }
            },
            Event::Resize => {
                self.dirty = true;
            },
            _ => {},
        }
        StreamControl::Idle
    }
}

/// The dashboard stays well-formed, whatever the terminal reports.
pub proof fn law_dashboard_stays_well_formed(d: DashSpec, label: Seq<char>, color: Color, text: Seq<char>)
    requires
        d.wf(),
    ensures
        told(d, label, color, text).wf(),
{
    lemma_message_keeps(d, label, color, lines_of(text));
}

/// A wish is followed only where the viewer strikes `y`, in either case. Any other key drops
/// it, and nothing is asked of the stage.
pub proof fn law_only_a_yes_confirms(d: DashSpec, key: KeyEvent, body_height: usize)
    requires
        d.injection_input is None,
        d.pending_confirmation is Some,
        key.press,
        !key.control,
    ensures
        ({
            let r = handled(d, EventSpec::Key(key), body_height);
            let yes = key.code == KeyCode::Char('y') || key.code == KeyCode::Char('Y');
            &&& !yes ==> r.1 is Idle && r.0 == (DashSpec {
                pending_confirmation: None,
                dirty: true,
                ..d
            })
            &&& yes ==> (match d.pending_confirmation->0 {
                PendingConfirmation::Pause => r.1 is Pause,
                PendingConfirmation::StopAfterIteration => r.1 is Idle,
                PendingConfirmation::Escalate => r.1 is Escalate,
                PendingConfirmation::Compact => r.1 is Compact,
                PendingConfirmation::Context => r.1 is Context,
            })
        }),
{
}

/// What the viewer writes is sent as it was written: a character is put behind the others, the
/// key that takes one back undoes that, and an empty message is not sent.
pub proof fn law_messages_are_sent_as_written(
    d: DashSpec,
    key: KeyEvent,
    c: char,
    text: Seq<char>,
    body_height: usize,
)
    requires
        d.injection_input is Some,
        key.press,
        !key.control,
        key.typing,
    ensures
        ({
            let input = d.injection_input->0;
            let typed = handled(
                d,
                EventSpec::Key(KeyEvent { code: KeyCode::Char(c), ..key }),
                body_height,
            );
            let back = handled(
                typed.0,
                EventSpec::Key(KeyEvent { code: KeyCode::Backspace, ..key }),
                body_height,
            );
            let sent = handled(
                d,
                EventSpec::Key(KeyEvent { code: KeyCode::Enter, ..key }),
                body_height,
            );
            let dropped = handled(
                d,
                EventSpec::Key(KeyEvent { code: KeyCode::Esc, ..key }),
                body_height,
            );
            &&& typed.1 is Idle
            &&& typed.0.injection_input == Some(input.push(c))
            &&& back.0.injection_input == Some(input)
            &&& trimmed(input).len() > 0 ==> sent.1 == ControlView::Inject(input)
            &&& trimmed(input).len() == 0 ==> sent.1 is Idle
            &&& dropped.1 is Idle
            &&& dropped.0.injection_input is None
            &&& handled(d, EventSpec::Paste(text), body_height).0.injection_input == Some(
                input + text,
            )
        }),
{
    let input = d.injection_input->0;
    assert(input.push(c).drop_last() =~= input);
}

/// A key that asks for something that stops or interrupts an agent asks the viewer first.
pub proof fn law_keys_ask_first(d: DashSpec, body_height: usize)
    ensures
        struck(d, KeyCode::Char('p'), body_height).pending_confirmation == Some(
            PendingConfirmation::Pause,
        ),
        d.campaign is Some ==> struck(d, KeyCode::Char('q'), body_height).pending_confirmation
            == Some(PendingConfirmation::StopAfterIteration),
        d.campaign is None ==> struck(d, KeyCode::Char('q'), body_height) == d,
        !d.compact_requested ==> struck(d, KeyCode::Char('c'), body_height).pending_confirmation
            == Some(PendingConfirmation::Compact),
        !d.context_requested ==> struck(d, KeyCode::Char('C'), body_height).pending_confirmation
            == Some(PendingConfirmation::Context),
        d.frontier_enabled && frontier_open(d) ==> struck(
            d,
            KeyCode::Char('f'),
            body_height,
        ).pending_confirmation == Some(PendingConfirmation::Escalate),
        struck(d, KeyCode::Char('i'), body_height).injection_input == Some(Seq::<char>::empty()),
        struck(d, KeyCode::End, body_height) == (DashSpec { follow_latest: true, dirty: true, ..d }),
        struck(d, KeyCode::Home, body_height).viewport_start == 0 && !struck(
            d,
            KeyCode::Home,
            body_height,
        ).follow_latest,
{
}

/// The frontier model can be asked for only where it is enabled and one of the stages runs
/// that it can take over.
pub proof fn law_when_the_frontier_can_be_asked(d: DashSpec)
    requires
        d.panels.len() > 0,
        d.panels.last().status == PhaseStatus::Running,
    ensures
        frontier_open(d) <==> d.frontier_enabled && (d.panels.last().title == "Explore"@
            || d.panels.last().title == "Propose"@ || d.panels.last().title == "Apply"@
            || d.panels.last().title == "Verify"@ || d.panels.last().title == "Repair"@),
{
}

/// A phase that begins has a panel of its own, open, selected and running. The panel before it
/// is closed and over, and all others stay as they are.
pub proof fn law_phases_open_their_panel(
    d: DashSpec,
    current: usize,
    total: usize,
    title: Seq<char>,
    started_at: u64,
    now: u64,
)
    requires
        d.panels.len() < usize::MAX,
    ensures
        ({
            let r = staged(d, current, total, title, started_at, now);
            let n = d.panels.len() as int;
            let p = r.panels[n];
            &&& r.panels.len() == n + 1
            &&& r.selected_panel == n
            &&& r.follow_latest && r.ensure_selected && r.dirty
            &&& p.current == current && p.total == total && p.title == title && p.started_at
                == started_at
            &&& p.status == PhaseStatus::Running && p.finished_at is None && p.expanded
                && p.lines.len() == 0
            &&& forall|i: int| 0 <= i < n - 1 ==> #[trigger] r.panels[i] == d.panels[i]
            &&& n > 0 ==> {
                let q = r.panels[n - 1];
                &&& !q.expanded
                &&& q.finished_at is Some
                &&& q.lines == d.panels[n - 1].lines
                &&& d.panels[n - 1].status == PhaseStatus::Running ==> q.status
                    == PhaseStatus::Complete
                &&& d.panels[n - 1].status != PhaseStatus::Running ==> q.status
                    == d.panels[n - 1].status
            }
        }),
{
}

/// A phase that failed is shown as failed, and one that did not is left as it is. An agent
/// that begins to work takes back every wish that is under way.
pub proof fn law_failures_are_shown(d: DashSpec, now: u64, message: Seq<char>)
    requires
        d.panels.len() > 0,
    ensures
        judged(d, true, now) == d,
        judged(d, false, now).panels.last().status == PhaseStatus::Failed,
        judged(d, false, now).panels.last().finished_at == Some(now),
        judged(d, false, now).panels.drop_last() == d.panels.drop_last(),
        streaming(d, message).activity == message,
        !streaming(d, message).compact_requested && !streaming(d, message).context_requested,
        streaming(d, message).pending_confirmation is None,
        streaming(d, message).injection_input is None,
        streaming(d, message).panels.last().status == PhaseStatus::Running,
        streaming(d, message).panels.last().finished_at is None,
{
    assert(judged(d, false, now).panels.drop_last() =~= d.panels.drop_last());
}

/// A new iteration of a campaign begins with no panels and no change. In the same iteration
/// nothing of what is shown is lost.
pub proof fn law_iterations_begin_with_no_panels(
    d: DashSpec,
    c: CampaignSpec,
    next: CampaignSpec,
)
    requires
        d.campaign == Some(c),
    ensures
        next.iteration == c.iteration ==> with_campaign(d, Some(next)) == (DashSpec {
            campaign: Some(next),
            dirty: true,
            ..d
        }),
        next.iteration != c.iteration ==> ({
            let r = with_campaign(d, Some(next));
            &&& r.campaign == Some(next)
            &&& r.panels.len() == 0
            &&& r.retained_lines == 0
            &&& r.change_name is None
            &&& !r.stop_after_iteration
            &&& r.repo == d.repo
            &&& r.frontier_enabled == d.frontier_enabled
        }),
{
}

/// A line goes to the end of the last panel. Only where too many are kept is a line lost, and
/// then it is the oldest.
pub proof fn law_lines_go_to_the_last_panel(d: DashSpec, line: LineSpec)
    requires
        d.panels.len() > 0,
        d.retained_lines <= 20_000,
    ensures
        d.retained_lines < 20_000 ==> ({
            let r = with_line(d, line);
            &&& r.panels.last().lines == d.panels.last().lines.push(line)
            &&& r.panels.drop_last() == d.panels.drop_last()
            &&& r.retained_lines == d.retained_lines + 1
            &&& d.panels.last().total_lines < u64::MAX ==> r.panels.last().total_lines
                == d.panels.last().total_lines + 1
            &&& r.dirty
        }),
        d.retained_lines == 20_000 && d.panels[0].lines.len() > 0 && d.panels.len() > 1 ==> ({
            let r = with_line(d, line);
            &&& r.panels.last().lines == d.panels.last().lines.push(line)
            &&& r.panels[0].lines == d.panels[0].lines.skip(1)
            &&& r.retained_lines == 20_000
        }),
{
    let r = with_line(d, line);
    if d.retained_lines < 20_000 {
        assert(r.panels.drop_last() =~= d.panels.drop_last());
    }
}

/// Control characters are not shown, a tab is a blank, and everything else is shown as it is.
pub proof fn law_control_characters_are_not_shown(text: Seq<char>, c: char)
    ensures
        (c as u32) > 0x9f || (0x20 <= (c as u32) && (c as u32) < 0x7f) ==> sanitized(text.push(c))
            == sanitized(text).push(c),
        c == '\t' ==> sanitized(text.push(c)) == sanitized(text).push(' '),
        c == '\n' || c == '\r' || c == '\u{1b}' || c == '\u{7f}' ==> sanitized(text.push(c))
            == sanitized(text),
        sanitized(Seq::empty()).len() == 0,
{
    assert(text.push(c).drop_last() =~= text);
}

/// A long message is shown by its first 120 and its last 80 lines, and says in between how
/// many are left out.
pub proof fn law_long_messages_are_abridged(list: Seq<Seq<char>>, name: Seq<char>)
    requires
        list.len() > 200,
    ensures
        ({
            let r = abridged(list, name);
            &&& r.len() == 201
            &&& r.take(120) == list.take(120)
            &&& r.skip(121) == list.skip(list.len() - 80)
            &&& ("… "@ + decimal((list.len() - 200) as nat)).is_prefix_of(r[120])
        }),
{
    let r = abridged(list, name);
    assert(r.take(120) =~= list.take(120));
    assert(r.skip(121) =~= list.skip(list.len() - 80));
    let a = "… "@ + decimal((list.len() - 200) as nat);
    assert(r[120].subrange(0, a.len() as int) =~= a);
}

/// Going to the next panel and back again leads to the panel that was selected, and after the
/// last panel comes the first.
pub proof fn law_the_selection_goes_round(d: DashSpec)
    requires
        d.panels.len() > 0,
        d.selected_panel < d.panels.len() <= usize::MAX,
    ensures
        previous_selected(next_selected(d)).selected_panel == d.selected_panel,
        next_selected(d).selected_panel < d.panels.len(),
        d.selected_panel + 1 < d.panels.len() ==> next_selected(d).selected_panel
            == d.selected_panel + 1,
        d.selected_panel + 1 == d.panels.len() ==> next_selected(d).selected_panel == 0,
        next_selected(d).panels == d.panels,
{
    let n = d.panels.len() as int;
    if d.selected_panel + 1 < n {
        vstd::arithmetic::div_mod::lemma_small_mod((d.selected_panel + 1) as nat, n as nat);
    } else {
        vstd::arithmetic::div_mod::lemma_mod_self_0(n);
    }
}

/// The view is moved by as many lines as are asked for, not before the first and not beyond
/// the end. At the end it follows what comes.
pub proof fn law_the_view_is_scrolled(d: DashSpec, amount: usize, bar: ScrollbarGeometry)
    requires
        d.scrollbar == Some(bar),
    ensures
        d.viewport_start >= amount ==> scrolled_up(d, amount).viewport_start == d.viewport_start
            - amount,
        d.viewport_start < amount ==> scrolled_up(d, amount).viewport_start == 0,
        !scrolled_up(d, amount).follow_latest,
        d.viewport_start + amount <= bar.max_position ==> scrolled_down(d, amount).viewport_start
            == d.viewport_start + amount,
        d.viewport_start + amount > bar.max_position ==> scrolled_down(d, amount).viewport_start
            == bar.max_position,
        scrolled_down(d, amount).follow_latest <==> scrolled_down(d, amount).viewport_start
            == bar.max_position,
        scrolled_up(d, amount).panels == d.panels && scrolled_down(d, amount).panels == d.panels,
{
}

/// A panel is opened and closed again by the same key, and nothing else of the panels changes.
pub proof fn law_panels_are_opened_and_closed(d: DashSpec)
    requires
        d.selected_panel < d.panels.len(),
    ensures
        ({
            let i = d.selected_panel as int;
            let r = toggled(d);
            &&& r.panels[i].expanded == !d.panels[i].expanded
            &&& toggled(r).panels == d.panels
            &&& r.panels.len() == d.panels.len()
            &&& forall|k: int| 0 <= k < d.panels.len() && k != i ==> #[trigger] r.panels[k]
                == d.panels[k]
            &&& !with_expansion(d, false).panels[i].expanded
        }),
{
    let i = d.selected_panel as int;
    let r = toggled(d);
    assert(toggled(r).panels[i] == d.panels[i]);
    assert(toggled(r).panels =~= d.panels);
}

/// What an agent did is shown line by line under the label of its kind, which stands at the
/// first line alone.
pub proof fn law_items_are_shown_under_their_label(
    d: DashSpec,
    label: Seq<char>,
    color: Color,
    list: Seq<Seq<char>>,
    text: Seq<char>,
    h: HarnessView,
)
    requires
        d.panels.len() > 0,
        d.retained_lines < 20_000,
    ensures
        ({
            let r = with_message(d, label, color, seq![text]);
            let line = r.panels.last().lines.last();
            &&& line.text == sanitized(text)
            &&& line.source matches Some(s) && s.text == label && s.color == color
        }),
        list.len() > 0 ==> with_message(d, label, color, list.push(text)) == with_line(
            with_message(d, label, color, list),
            (LineSpec {
                text: sanitized(text),
                color: Color::White,
                source: Some(LabelSpec { text: ""@, color }),
            }),
        ),
        with_item(d, ItemView::Tool(text), h) == with_message(
            d,
            "tool"@,
            Color::Yellow,
            lines_of(text),
        ),
        with_item(d, ItemView::Reasoning(text), h) == with_message(
            d,
            "reason"@,
            Color::DarkGrey,
            lines_of(text),
        ),
        with_item(d, ItemView::Lifecycle(text), h) == with_message(
            d,
            "event"@,
            Color::Magenta,
            lines_of(text),
        ),
        with_item(d, ItemView::Raw(text), h) == with_message(
            d,
            "json"@,
            Color::DarkGrey,
            lines_of(text),
        ),
        with_item(d, ItemView::Subagent(text), h) == with_message(
            d,
            "agent"@,
            Color::Blue,
            lines_of(text),
        ),
        lines_of(text).len() <= 200 ==> with_item(d, ItemView::Codex(text), h) == with_message(
            d,
            "codex"@,
            Color::Cyan,
            lines_of(text),
        ) && with_item(d, ItemView::Assistant(text), h) == with_message(
            d,
            h.name,
            Color::Cyan,
            lines_of(text),
        ),
{
    let one = seq![text];
    assert(one.drop_last() =~= Seq::<Seq<char>>::empty());
    assert(with_message(d, label, color, one.drop_last()) == d);
    assert(list.push(text).drop_last() =~= list);
}

} // verus!
