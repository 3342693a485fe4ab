//! One frame of the dashboard: which lines are in view, and what has to be drawn.
use crate::dashboard::{
    Color, DashSpec, IterationSpec, LabelSpec, LineSpec, PanelSpec, PhasePanel, PhaseStatus,
    SourceLabel, StreamDashboard,
};
use crate::numeral::{decimal, decimal_text};
use crate::screen::{
    duration_text, format_duration, geometry, row_of, scrollbar_geometry, ScrollbarGeometry,
};
use crate::text::{cat2, cat3, cat4, cat5, cat7, equal, lemma_seen_all_push, seen, seen_all};
use crate::workflow::{short, short_hash};
use vstd::prelude::*;
use vstd::string::*;

verus! {

/// How wide the names are that stand before the lines.
pub const SOURCE_LABEL_WIDTH: usize = 8;

/// The faces of the spinner.
pub open spec fn face(i: int) -> Seq<char> {
    if i == 0 {
        "⠋"@
    } else if i == 1 {
        "⠙"@
    } else if i == 2 {
        "⠹"@
    } else if i == 3 {
        "⠸"@
    } else if i == 4 {
        "⠼"@
    } else if i == 5 {
        "⠴"@
    } else if i == 6 {
        "⠦"@
    } else if i == 7 {
        "⠧"@
    } else if i == 8 {
        "⠇"@
    } else {
        "⠏"@
    }
}

fn spinner(i: usize) -> (r: &'static str)
    ensures
        r@ == face(i as int),
{
    if i == 0 {
        "⠋"
    } else if i == 1 {
        "⠙"
    } else if i == 2 {
        "⠹"
    } else if i == 3 {
        "⠸"
    } else if i == 4 {
        "⠼"
    } else if i == 5 {
        "⠴"
    } else if i == 6 {
        "⠦"
    } else if i == 7 {
        "⠧"
    } else if i == 8 {
        "⠇"
    } else {
        "⠏"
    }
}

/// A text cut to a width of the terminal, with an ellipsis where something is missing.
pub uninterp spec fn cut_text(text: Seq<char>, width: nat) -> Seq<char>;

/// `console::truncate_str` with an ellipsis for what is cut off, named by [`cut_text`]: a
/// function of the text and the width.
#[verifier::external_body]
fn cut(text: &str, width: usize) -> (r: String)
    ensures
        r@ == cut_text(text@, width as nat),
{
    console::truncate_str(text, width, "…").into_owned()
}

/// A line that is drawn.
#[derive(Debug, Clone)]
pub struct RenderLine {
    pub text: String,
    pub color: Color,
    pub bold: bool,
    pub panel: Option<usize>,
    pub source: Option<SourceLabel>,
}

pub struct RenderSpec {
    pub text: Seq<char>,
    pub color: Color,
    pub bold: bool,
    pub panel: Option<usize>,
    pub source: Option<LabelSpec>,
}

impl View for RenderLine {
    type V = RenderSpec;

    open spec fn view(&self) -> RenderSpec {
        RenderSpec {
            text: self.text@,
            color: self.color,
            bold: self.bold,
            panel: self.panel,
            source: seen(self.source),
        }
    }
}

/// The first row of the dashboard.
pub open spec fn heading(d: DashSpec) -> Seq<char> {
    let campaign = match d.campaign {
        Some(c) => Some(
            match c.max_iterations {
                Some(maximum) => "iteration "@ + decimal(c.iteration as nat) + "/"@ + decimal(
                    maximum as nat,
                ),
                None => "iteration "@ + decimal(c.iteration as nat),
            },
        ),
        None => None,
    };
    match (campaign, d.change_name) {
        (Some(campaign), Some(change)) => "opsx-build  "@ + campaign + "  change: "@ + change + "  "@
            + d.repo,
        (Some(campaign), None) => "opsx-build  "@ + campaign + "  "@ + d.repo,
        (None, Some(change)) => "opsx-build  change: "@ + change + "  "@ + d.repo,
        (None, None) => "opsx-build  "@ + d.repo,
    }
}

/// How long a phase has taken, in seconds.
pub open spec fn elapsed(p: PanelSpec, now: u64) -> u64 {
    let end = match p.finished_at {
        Some(t) => t,
        None => now,
    };
    if end <= p.started_at {
        0
    } else {
        ((end - p.started_at) / 1_000) as u64
    }
}

fn elapsed_at(panel: &PhasePanel, now: u64) -> (r: u64)
    ensures
        r == elapsed(panel@, now),
{
    let end: u64 = match panel.finished_at {
        Some(t) => t,
        None => now,
    };
    if end <= panel.stage.started_at {
        0
    } else {
        (end - panel.stage.started_at) / 1_000
    }
}

/// What is said of a phase that occurs again.
pub open spec fn pass_text(occurrence: usize) -> Seq<char> {
    if occurrence > 1 {
        " · pass "@ + decimal(occurrence as nat)
    } else {
        ""@
    }
}

fn pass(occurrence: usize) -> (r: String)
    ensures
        r@ == pass_text(occurrence),
{
    if occurrence > 1 {
        let n = decimal_text(occurrence as u64);
        cat2(" · pass ", n.as_str())
    } else {
        "".to_owned()
    }
}

/// A phase, by its number and name.
pub open spec fn phase_name(p: PanelSpec) -> Seq<char> {
    "["@ + decimal(p.current as nat) + "/"@ + decimal(p.total as nat) + "] "@ + p.title + pass_text(
        p.occurrence,
    ) + " · "@
}

fn phase_title(panel: &PhasePanel) -> (r: String)
    ensures
        r@ == phase_name(panel@),
{
    let current = decimal_text(panel.stage.current as u64);
    let total = decimal_text(panel.stage.total as u64);
    let again = pass(panel.occurrence);
    let head = cat5("[", current.as_str(), "/", total.as_str(), "] ");
    cat4(head.as_str(), panel.stage.title.as_str(), again.as_str(), " · ")
}

/// The line of an iteration that is over.
pub open spec fn iteration_line(i: IterationSpec) -> RenderSpec {
    RenderSpec {
        text: "  ✓ iteration "@ + decimal(i.iteration as nat) + " · "@ + i.change
            + match i.elapsed_seconds {
            Some(seconds) => " · "@ + duration_text(seconds),
            None => ""@,
        } + match i.final_head {
            Some(head) => " · "@ + short(head),
            None => ""@,
        },
        color: Color::Green,
        bold: true,
        panel: None,
        source: None,
    }
}

/// The lines of a campaign.
pub open spec fn campaign_lines(d: DashSpec) -> Seq<RenderSpec> {
    match d.campaign {
        None => Seq::empty(),
        Some(c) => c.completed.map_values(|i: IterationSpec| iteration_line(i)).push(
            RenderSpec {
                text: "  ◆ iteration "@ + decimal(c.iteration as nat) + " · current"@
                    + match d.change_name {
                    Some(change) => " · "@ + change,
                    None => ""@,
                },
                color: Color::Cyan,
                bold: true,
                panel: None,
                source: None,
            },
        ),
    }
}

/// The heading of a panel.
pub open spec fn panel_heading(d: DashSpec, index: int, now: u64) -> RenderSpec {
    let p = d.panels[index];
    RenderSpec {
        text: if index == d.selected_panel {
            "›"@
        } else {
            " "@
        } + " "@ + if p.expanded {
            "▼"@
        } else {
            "▶"@
        } + " "@ + match p.status {
            PhaseStatus::Running => face(d.spinner_index as int),
            PhaseStatus::Complete => "✓"@,
            PhaseStatus::Failed => "✗"@,
        } + " "@ + phase_name(p) + duration_text(elapsed(p, now)) + " · "@ + decimal(
            p.total_lines as nat,
        ) + if p.total_lines == 1 {
            " line"@
        } else {
            " lines"@
        } + if p.dropped_lines > 0 {
            " · "@ + decimal(p.dropped_lines as nat) + " older hidden"@
        } else {
            ""@
        },
        color: match p.status {
            PhaseStatus::Running => Color::Yellow,
            PhaseStatus::Complete => Color::Green,
            PhaseStatus::Failed => Color::Red,
        },
        bold: true,
        panel: Some(index as usize),
        source: None,
    }
}

/// A line of a panel.
pub open spec fn body_line(l: LineSpec) -> RenderSpec {
    RenderSpec { text: l.text, color: l.color, bold: false, panel: None, source: l.source }
}

/// The lines of the first `n` panels. A closed panel is only its heading.
pub open spec fn panel_lines(d: DashSpec, n: nat, now: u64) -> Seq<RenderSpec>
    decreases n,
{
    if n == 0 {
        Seq::empty()
    } else {
        let p = d.panels[n - 1];
        panel_lines(d, (n - 1) as nat, now).push(panel_heading(d, n - 1, now)) + if p.expanded {
            p.lines.map_values(|l: LineSpec| body_line(l))
        } else {
            Seq::empty()
        }
    }
}

/// All lines of the dashboard.
pub open spec fn rendered(d: DashSpec, now: u64) -> Seq<RenderSpec> {
    campaign_lines(d) + panel_lines(d, d.panels.len(), now)
}

/// What is done to the terminal.
#[derive(Debug, Clone)]
pub enum DrawCommand {
    /// Everything is cleared.
    ClearAll,
    /// A row is cleared and written.
    Row { row: u16, text: String, color: Color, bold: bool },
    /// A row is cleared and written, with who it is from.
    Labelled { row: u16, label: String, label_color: Color, text: String, color: Color },
    /// A row is cleared.
    ClearRow { row: u16 },
    /// One character is written.
    Symbol { column: u16, row: u16, symbol: &'static str, color: Color },
}

pub enum DrawSpec {
    ClearAll,
    Row { row: u16, text: Seq<char>, color: Color, bold: bool },
    Labelled { row: u16, label: Seq<char>, label_color: Color, text: Seq<char>, color: Color },
    ClearRow { row: u16 },
    Symbol { column: u16, row: u16, symbol: Seq<char>, color: Color },
}

impl View for DrawCommand {
    type V = DrawSpec;

    open spec fn view(&self) -> DrawSpec {
        match *self {
            DrawCommand::ClearAll => DrawSpec::ClearAll,
            DrawCommand::Row { row, text, color, bold } => DrawSpec::Row {
                row,
                text: text@,
                color,
                bold,
            },
            DrawCommand::Labelled { row, label, label_color, text, color } => DrawSpec::Labelled {
                row,
                label: label@,
                label_color,
                text: text@,
                color,
            },
            DrawCommand::ClearRow { row } => DrawSpec::ClearRow { row },
            DrawCommand::Symbol { column, row, symbol, color } => DrawSpec::Symbol {
                column,
                row,
                symbol: symbol@,
                color,
            },
        }
    }
}

/// A row of a width.
pub open spec fn row_drawn(row: u16, width: u16, text: Seq<char>, color: Color, bold: bool) -> DrawSpec {
    DrawSpec::Row { row, text: cut_text(text, width as nat), color, bold }
}

fn draw_row(row: u16, width: u16, text: &str, color: Color, bold: bool) -> (r: DrawCommand)
    ensures
        r@ == row_drawn(row, width, text@, color, bold),
{
    DrawCommand::Row { row, text: cut(text, width as usize), color, bold }
}

/// A text with blanks before it, up to a width.
pub open spec fn right_aligned(text: Seq<char>, width: nat) -> Seq<char> {
    if text.len() >= width {
        text
    } else {
        Seq::new((width - text.len()) as nat, |i: int| ' ') + text
    }
}

fn align_right(text: &str, width: usize) -> (r: String)
    ensures
        r@ == right_aligned(text@, width as nat),
{
    let n: usize = text.unicode_len();
    if n >= width {
        return text.to_owned();
    }
    let mut out = "".to_owned();
    let mut i: usize = 0;
    proof {
        reveal_strlit("");
        assert(out@ =~= Seq::new(0, |i: int| ' '));
    }
    while i < width - n
        invariant
            n < width,
            i <= width - n,
            out@ == Seq::new(i as nat, |i: int| ' '),
        decreases width - n - i,
    {
        out.push(' ');
        i += 1;
        assert(out@ =~= Seq::new(i as nat, |i: int| ' '));
    }
    cat2(out.as_str(), text)
}

/// A line as it is drawn.
pub open spec fn line_drawn(row: u16, width: u16, line: RenderSpec) -> DrawSpec {
    match line.source {
        None => row_drawn(row, width, line.text, line.color, line.bold),
        Some(source) => DrawSpec::Labelled {
            row,
            label: cut_text(
                right_aligned(
                    cut_text(source.text, SOURCE_LABEL_WIDTH as nat),
                    SOURCE_LABEL_WIDTH as nat,
                ) + " "@,
                width as nat,
            ),
            label_color: source.color,
            text: cut_text(
                line.text,
                (if width <= SOURCE_LABEL_WIDTH + 1 {
                    0
                } else {
                    width - (SOURCE_LABEL_WIDTH + 1)
                }) as nat,
            ),
            color: line.color,
        },
    }
}

fn draw_render_row(row: u16, width: u16, line: &RenderLine) -> (r: DrawCommand)
    ensures
        r@ == line_drawn(row, width, line@),
{
    match &line.source {
        None => draw_row(row, width, line.text.as_str(), line.color, line.bold),
        Some(source) => {
            let name = cut(source.text.as_str(), SOURCE_LABEL_WIDTH);
            let aligned = align_right(name.as_str(), SOURCE_LABEL_WIDTH);
            let prefix = cat2(aligned.as_str(), " ");
            let wide: usize = width as usize;
            let rest: usize = if wide <= SOURCE_LABEL_WIDTH + 1 {
                0
            } else {
                wide - (SOURCE_LABEL_WIDTH + 1)
            };
            DrawCommand::Labelled {
                row,
                label: cut(prefix.as_str(), wide),
                label_color: source.color,
                text: cut(line.text.as_str(), rest),
                color: line.color,
            }
        },
    }
}

/// The symbol of a scrollbar in a row between its ends.
pub open spec fn bar_symbol(bar: ScrollbarGeometry, row: u16) -> DrawSpec {
    if bar.thumb_covers(row as int) {
        DrawSpec::Symbol { column: bar.column, row, symbol: "█"@, color: Color::Cyan }
    } else {
        DrawSpec::Symbol { column: bar.column, row, symbol: "│"@, color: Color::DarkGrey }
    }
}

/// A scrollbar as it is drawn.
pub open spec fn bar_drawn(bar: ScrollbarGeometry) -> Seq<DrawSpec> {
    let first = row_of(bar.top + 1);
    seq![
        DrawSpec::Symbol {
            column: bar.column,
            row: bar.top,
            symbol: "↑"@,
            color: Color::DarkGrey,
        },
    ] + Seq::new(
        (if bar.bottom() <= first {
            0
        } else {
            bar.bottom() - first
        }) as nat,
        |i: int| bar_symbol(bar, (first + i) as u16),
    ).push(
        DrawSpec::Symbol {
            column: bar.column,
            row: bar.bottom() as u16,
            symbol: "↓"@,
            color: Color::DarkGrey,
        },
    )
}

fn push_draw(list: &mut Vec<DrawCommand>, item: DrawCommand)
    ensures
        seen_all(final(list)@) == seen_all(old(list)@).push(item@),
{
    proof {
        lemma_seen_all_push(list@, item);
    }
    list.push(item);
}

fn draw_scrollbar(list: &mut Vec<DrawCommand>, bar: ScrollbarGeometry)
    requires
        bar.height > 0,
    ensures
        seen_all(final(list)@) == seen_all(old(list)@) + bar_drawn(bar),
{
    let ghost was = seen_all(list@);
    let bottom: u16 = bar.last_row();
    push_draw(
        list,
        DrawCommand::Symbol {
            column: bar.column,
            row: bar.top,
            symbol: "↑",
            color: Color::DarkGrey,
        },
    );
    let ghost top = DrawSpec::Symbol {
        column: bar.column,
        row: bar.top,
        symbol: "↑"@,
        color: Color::DarkGrey,
    };
    let first: u16 = match bar.top.checked_add(1) {
        Some(first) => first,
        None => u16::MAX,
    };
    let mut row: u16 = first;
    assert(seen_all(list@) =~= was.push(top) + Seq::new(0, |i: int| bar_symbol(bar, (first + i) as u16)));
    while row < bottom
        invariant
            first <= row,
            row <= bottom || row == first,
            seen_all(list@) == was.push(top) + Seq::new(
                (row - first) as nat,
                |i: int| bar_symbol(bar, (first + i) as u16),
            ),
        decreases bottom - row,
    {
        let item = if bar.is_on_thumb(row) {
            DrawCommand::Symbol { column: bar.column, row, symbol: "█", color: Color::Cyan }
        } else {
            DrawCommand::Symbol { column: bar.column, row, symbol: "│", color: Color::DarkGrey }
        };
        push_draw(list, item);
        row += 1;
        assert(seen_all(list@) =~= was.push(top) + Seq::new(
            (row - first) as nat,
            |i: int| bar_symbol(bar, (first + i) as u16),
        ));
    }
    push_draw(
        list,
        DrawCommand::Symbol { column: bar.column, row: bottom, symbol: "↓", color: Color::DarkGrey },
    );
    assert(seen_all(list@) =~= was + bar_drawn(bar));
}

/// Where the heading of a panel stands among the lines.
pub open spec fn heading_position(lines: Seq<RenderSpec>, panel: usize, from: int) -> Option<int>
    decreases lines.len() - from,
{
    if from < 0 || from >= lines.len() {
        None
    } else if lines[from].panel == Some(panel) {
        Some(from)
    } else {
        heading_position(lines, panel, from + 1)
    }
}

/// The difference of two numbers, if it is none below zero.
pub open spec fn less(a: int, b: int) -> int {
    if a <= b {
        0
    } else {
        a - b
    }
}

/// The first line in view: the last lines where they are followed, else where the viewer
/// left off, and in any case so that a panel that was selected is seen.
pub open spec fn view_start(d: DashSpec, lines: Seq<RenderSpec>, body: int) -> int {
    let maximum = less(lines.len() as int, body);
    let start = if d.follow_latest || d.viewport_start > maximum {
        maximum
    } else {
        d.viewport_start as int
    };
    let page = if body == 0 {
        1
    } else {
        body
    };
    if d.ensure_selected {
        match heading_position(lines, d.selected_panel, 0) {
            Some(position) => if position < start {
                position
            } else if position >= start + page {
                less(position, less(body, 1))
            } else {
                start
            },
            None => start,
        }
    } else {
        start
    }
}

/// How many rows the panels have.
pub open spec fn body_rows(height: u16) -> int {
    less(height as int, 4)
}

/// The scrollbar of a frame, if the lines do not all fit.
pub open spec fn frame_bar(width: u16, height: u16, count: nat, start: int) -> Option<ScrollbarGeometry> {
    let body = body_rows(height);
    let maximum = less(count as int, body);
    if maximum > 0 && body >= 3 {
        Some(
            geometry(width, 3, body as u16, maximum as usize, start as usize, body as usize),
        )
    } else {
        None
    }
}

/// The last row of the dashboard.
pub open spec fn footer_text(d: DashSpec) -> Seq<char> {
    match d.pending_confirmation {
        Some(action) => action.question() + "  y confirm · any other key cancel"@,
        None => match d.injection_input {
            Some(input) => "steer> "@ + input
                + "█   Enter interrupt · Esc cancel · Ctrl-C stop"@,
            None => "p pause"@ + if d.frontier_enabled {
                " · f frontier"@
            } else {
                ""@
            } + " · c compact · C context · i steer"@ + if d.campaign is Some {
                " · q pause after slice"@
            } else {
                ""@
            } + " · click/Enter/Space toggle · Tab/←→ select · ↑↓/Pg scroll · Ctrl-C stop"@,
        },
    }
}

/// The second row of the dashboard.
pub open spec fn activity_text(d: DashSpec, now: u64) -> Seq<char> {
    (if d.panels.len() == 0 {
        "[workflow]"@
    } else {
        phase_name(d.panels.last()) + duration_text(elapsed(d.panels.last(), now))
    }) + "  "@ + face(d.spinner_index as int) + " "@ + d.activity
}

/// A line across the terminal.
pub open spec fn ruler(width: u16) -> Seq<char> {
    Seq::new(width as nat, |i: int| '─')
}

/// The rows above the panels.
pub open spec fn top_drawn(d: DashSpec, width: u16, height: u16, now: u64) -> Seq<DrawSpec> {
    (if d.last_size != Some((width, height)) {
        seq![DrawSpec::ClearAll]
    } else {
        Seq::empty()
    }).push(row_drawn(0, width, heading(d), Color::Cyan, true)) + if height > 1 {
        seq![row_drawn(1, width, activity_text(d, now), Color::White, true)]
    } else {
        Seq::empty()
    } + if height > 2 {
        seq![row_drawn(2, width, ruler(width), Color::DarkGrey, false)]
    } else {
        Seq::empty()
    }
}

/// How many lines are in view.
pub open spec fn shown_rows(count: nat, start: int, body: int) -> int {
    if less(count as int, start) <= body {
        less(count as int, start)
    } else {
        body
    }
}

/// The rows of the panels: the lines in view, and the rest cleared.
pub open spec fn body_drawn(lines: Seq<RenderSpec>, start: int, body: int, width: u16) -> Seq<DrawSpec> {
    let shown = shown_rows(lines.len(), start, body);
    Seq::new(
        body as nat,
        |i: int|
            if i < shown {
                line_drawn((3 + i) as u16, width, lines[start + i])
            } else {
                DrawSpec::ClearRow { row: (3 + i) as u16 }
            },
    )
}

/// The rows of the first `n` lines in view that are headings.
pub open spec fn headings(lines: Seq<RenderSpec>, start: int, n: nat) -> Seq<(u16, usize)>
    decreases n,
{
    if n == 0 {
        Seq::empty()
    } else {
        let front = headings(lines, start, (n - 1) as nat);
        match lines[start + n - 1].panel {
            Some(panel) => front.push(((3 + n - 1) as u16, panel)),
            None => front,
        }
    }
}

/// The dashboard after a frame of it was drawn.
pub open spec fn after_frame(d: DashSpec, width: u16, height: u16, now: u64) -> DashSpec {
    let lines = rendered(d, now);
    let body = body_rows(height);
    let start = view_start(d, lines, body);
    DashSpec {
        viewport_start: start as usize,
        ensure_selected: d.ensure_selected && heading_position(lines, d.selected_panel, 0) is None,
        scrollbar: frame_bar(width, height, lines.len(), start),
        heading_rows: headings(lines, start, shown_rows(lines.len(), start, body) as nat),
        last_size: Some((width, height)),
        last_footer: if height > 3 {
            Some(footer_text(d))
        } else {
            None
        },
        last_draw: now,
        dirty: false,
        ..d
    }
}

/// What is drawn of a frame. The last row is drawn only where it changed.
pub open spec fn frame_drawn(d: DashSpec, width: u16, height: u16, now: u64) -> Seq<DrawSpec> {
    let lines = rendered(d, now);
    let body = body_rows(height);
    let start = view_start(d, lines, body);
    let bar = frame_bar(width, height, lines.len(), start);
    let inner = if bar is Some {
        (width - 1) as u16
    } else {
        width
    };
    top_drawn(d, width, height, now) + body_drawn(lines, start, body, inner) + match bar {
        Some(bar) => bar_drawn(bar),
        None => Seq::empty(),
    } + if height > 3 && (d.last_size != Some((width, height)) || d.last_footer != Some(
        footer_text(d),
    )) {
        seq![row_drawn((height - 1) as u16, width, footer_text(d), Color::DarkGrey, false)]
    } else {
        Seq::empty()
    }
}

/// A frame that is drawn again, with nothing changed, leaves the last row and the rest of
/// the screen as they are: neither is cleared or written anew.
pub proof fn law_unchanged_help_is_not_redrawn(d: DashSpec, width: u16, height: u16, now: u64, later: u64, e: DashSpec)
    requires
        width > 0,
        height > 3,
        e.last_size == after_frame(d, width, height, now).last_size,
        e.last_footer == after_frame(d, width, height, now).last_footer,
        footer_text(e) == footer_text(d),
    ensures
        frame_drawn(e, width, height, later).len() == top_drawn(e, width, height, later).len()
            + body_rows(height) + match frame_bar(
            width,
            height,
            rendered(e, later).len(),
            view_start(e, rendered(e, later), body_rows(height)),
        ) {
            Some(bar) => bar_drawn(bar).len(),
            None => 0,
        },
        top_drawn(e, width, height, later)[0] == row_drawn(0, width, heading(e), Color::Cyan, true),
{
}

proof fn lemma_heading_position(lines: Seq<RenderSpec>, panel: usize, from: int)
    requires
        0 <= from,
    ensures
        heading_position(lines, panel, from) matches Some(i) ==> from <= i < lines.len(),
    decreases lines.len() - from,
{
    if from < lines.len() {
        lemma_heading_position(lines, panel, from + 1);
    }
}

/// Everything that fits is in view: the lines in view begin where a whole screen of them
/// follows, unless a selected panel is being shown.
pub proof fn law_view_stays_on_the_lines(d: DashSpec, lines: Seq<RenderSpec>, body: int)
    requires
        body >= 0,
    ensures
        0 <= view_start(d, lines, body) <= lines.len(),
        !d.ensure_selected ==> view_start(d, lines, body) <= less(lines.len() as int, body),
{
    lemma_heading_position(lines, d.selected_panel, 0);
}

fn iteration_render(i: &crate::dashboard::CampaignIterationDashboardView) -> (r: RenderLine)
    ensures
        r@ == iteration_line(i@),
{
    let n = decimal_text(i.iteration as u64);
    let head = cat4("  ✓ iteration ", n.as_str(), " · ", i.change.as_str());
    let took = match i.elapsed_seconds {
        Some(seconds) => {
            let text = format_duration(seconds);
            cat2(" · ", text.as_str())
        },
        None => "".to_owned(),
    };
    let commit = match &i.final_head {
        Some(hash) => {
            let text = short_hash(hash.as_str());
            cat2(" · ", text.as_str())
        },
        None => "".to_owned(),
    };
    RenderLine {
        text: cat3(head.as_str(), took.as_str(), commit.as_str()),
        color: Color::Green,
        bold: true,
        panel: None,
        source: None,
    }
}

fn push_render(list: &mut Vec<RenderLine>, line: RenderLine)
    ensures
        seen_all(final(list)@) == seen_all(old(list)@).push(line@),
{
    proof {
        lemma_seen_all_push(list@, line);
    }
    list.push(line);
}

fn copy_label(source: &Option<SourceLabel>) -> (r: Option<SourceLabel>)
    ensures
        seen(r) == seen(*source),
{
    match source {
        Some(label) => Some(SourceLabel { text: label.text.clone(), color: label.color }),
        None => None,
    }
}

fn find_heading(lines: &Vec<RenderLine>, panel: usize) -> (r: Option<usize>)
    ensures
        match r {
            Some(i) => heading_position(seen_all(lines@), panel, 0) == Some(i as int),
            None => heading_position(seen_all(lines@), panel, 0) is None,
        },
{
    let ghost all = seen_all(lines@);
    let mut i: usize = 0;
    while i < lines.len()
        invariant
            i <= lines@.len(),
            all == seen_all(lines@),
            heading_position(all, panel, 0) == heading_position(all, panel, i as int),
        decreases lines@.len() - i,
    {
        assert(all[i as int] == lines@[i as int]@);
        if let Some(p) = lines[i].panel {
            if p == panel {
                return Some(i);
            }
        }
        i += 1;
    }
    None
}

fn draw_ruler(width: u16) -> (r: String)
    ensures
        r@ == ruler(width),
{
    let mut out = "".to_owned();
    let mut i: u16 = 0;
    proof {
        reveal_strlit("");
        assert(out@ =~= ruler(0));
    }
    while i < width
        invariant
            i <= width,
            out@ == ruler(i),
        decreases width - i,
    {
        out.push('─');
        i += 1;
        assert(out@ =~= ruler(i));
    }
    out
}

impl StreamDashboard {
    pub fn header_text(&self) -> (r: String)
        ensures
            r@ == heading(self@),
    {
        let campaign = match &self.campaign {
            Some(c) => {
                let n = decimal_text(c.iteration as u64);
                Some(
                    match c.max_iterations {
                        Some(maximum) => {
                            let m = decimal_text(maximum as u64);
                            cat4("iteration ", n.as_str(), "/", m.as_str())
                        },
                        None => cat2("iteration ", n.as_str()),
                    },
                )
            },
            None => None,
        };
        match (&campaign, &self.change_name) {
            (Some(campaign), Some(change)) => {
                let head = cat3("opsx-build  ", campaign.as_str(), "  change: ");
                cat4(head.as_str(), change.as_str(), "  ", self.repo.as_str())
            },
            (Some(campaign), None) => cat4(
                "opsx-build  ",
                campaign.as_str(),
                "  ",
                self.repo.as_str(),
            ),
            (None, Some(change)) => cat4(
                "opsx-build  change: ",
                change.as_str(),
                "  ",
                self.repo.as_str(),
            ),
            (None, None) => cat2("opsx-build  ", self.repo.as_str()),
        }
    }

    fn render_campaign(&self) -> (r: Vec<RenderLine>)
        ensures
            seen_all(r@) == campaign_lines(self@),
    {
        let mut list: Vec<RenderLine> = Vec::new();
        assert(seen_all(list@) =~= Seq::empty());
        if let Some(c) = &self.campaign {
            let ghost all = seen_all(c.completed@).map_values(|i: IterationSpec| iteration_line(i));
            let mut k: usize = 0;
            assert(seen_all(list@) =~= all.take(0));
            while k < c.completed.len()
                invariant
                    k <= c.completed@.len(),
                    all == seen_all(c.completed@).map_values(|i: IterationSpec| iteration_line(i)),
                    seen_all(list@) == all.take(k as int),
                decreases c.completed@.len() - k,
            {
                let line = iteration_render(&c.completed[k]);
                push_render(&mut list, line);
                k += 1;
                assert(seen_all(list@) =~= all.take(k as int));
            }
            assert(all.take(k as int) =~= all);
            let n = decimal_text(c.iteration as u64);
            let change = match &self.change_name {
                Some(change) => cat2(" · ", change.as_str()),
                None => "".to_owned(),
            };
            push_render(
                &mut list,
                RenderLine {
                    text: cat4("  ◆ iteration ", n.as_str(), " · current", change.as_str()),
                    color: Color::Cyan,
                    bold: true,
                    panel: None,
                    source: None,
                },
            );
        }
        list
    }

    fn render_heading(&self, index: usize, now: u64) -> (r: RenderLine)
        requires
            index < self.panels@.len(),
        ensures
            r@ == panel_heading(self@, index as int, now),
    {
        let panel = &self.panels[index];
        assert(self@.panels[index as int] == panel@);
        let selected = if index == self.selected_panel {
            "›"
        } else {
            " "
        };
        let arrow = if panel.expanded {
            "▼"
        } else {
            "▶"
        };
        let (status, color) = match panel.status {
            PhaseStatus::Running => (spinner(self.spinner_index), Color::Yellow),
            PhaseStatus::Complete => ("✓", Color::Green),
            PhaseStatus::Failed => ("✗", Color::Red),
        };
        let title = phase_title(panel);
        let took = format_duration(elapsed_at(panel, now));
        let count = decimal_text(panel.total_lines);
        let unit = if panel.total_lines == 1 {
            " line"
        } else {
            " lines"
        };
        let hidden = if panel.dropped_lines > 0 {
            let n = decimal_text(panel.dropped_lines);
            cat3(" · ", n.as_str(), " older hidden")
        } else {
            "".to_owned()
        };
        let head = cat7(selected, " ", arrow, " ", status, " ", title.as_str());
        let middle = cat5(head.as_str(), took.as_str(), " · ", count.as_str(), unit);
        RenderLine {
            text: cat2(middle.as_str(), hidden.as_str()),
            color,
            bold: true,
            panel: Some(index),
            source: None,
        }
    }

    /// All lines of the dashboard.
    pub fn render_lines_at(&self, now: u64) -> (r: Vec<RenderLine>)
        ensures
            seen_all(r@) == rendered(self@, now),
    {
        let mut list = self.render_campaign();
        let ghost first = seen_all(list@);
        let mut index: usize = 0;
        assert(first =~= first + panel_lines(self@, 0, now));
        while index < self.panels.len()
            invariant
                index <= self.panels@.len(),
                seen_all(list@) == first + panel_lines(self@, index as nat, now),
            decreases self.panels@.len() - index,
        {
            let ghost was = seen_all(list@);
            let line = self.render_heading(index, now);
            push_render(&mut list, line);
            let panel = &self.panels[index];
            assert(self@.panels[index as int] == panel@);
            let ghost head = seen_all(list@);
            if panel.expanded {
                let ghost all = seen_all(panel.lines@).map_values(|l: LineSpec| body_line(l));
                let mut k: usize = 0;
                assert(head =~= head + all.take(0));
                while k < panel.lines.len()
                    invariant
                        k <= panel.lines@.len(),
                        all == seen_all(panel.lines@).map_values(|l: LineSpec| body_line(l)),
                        seen_all(list@) == head + all.take(k as int),
                    decreases panel.lines@.len() - k,
                {
                    let l = &panel.lines[k];
                    push_render(
                        &mut list,
                        RenderLine {
                            text: l.text.clone(),
                            color: l.color,
                            bold: false,
                            panel: None,
                            source: copy_label(&l.source),
                        },
                    );
                    k += 1;
                    assert(seen_all(list@) =~= head + all.take(k as int));
                }
                assert(all.take(k as int) =~= all);
            }
            index += 1;
            assert(seen_all(list@) =~= first + panel_lines(self@, index as nat, now));
        }
        list
    }

    fn footer(&self) -> (r: String)
        ensures
            r@ == footer_text(self@),
    {
        if let Some(action) = self.pending_confirmation {
            return cat2(action.prompt(), "  y confirm · any other key cancel");
        }
        match &self.injection_input {
            Some(input) => cat3(
                "steer> ",
                input.as_str(),
                "█   Enter interrupt · Esc cancel · Ctrl-C stop",
            ),
            None => {
                let frontier = if self.frontier_enabled {
                    " · f frontier"
                } else {
                    ""
                };
                let campaign = if self.campaign.is_some() {
                    " · q pause after slice"
                } else {
                    ""
                };
                cat5(
                    "p pause",
                    frontier,
                    " · c compact · C context · i steer",
                    campaign,
                    " · click/Enter/Space toggle · Tab/←→ select · ↑↓/Pg scroll · Ctrl-C stop",
                )
            },
        }
    }

    fn activity_row(&self, now: u64) -> (r: String)
        ensures
            r@ == activity_text(self@, now),
    {
        let count: usize = self.panels.len();
        let phase = if count == 0 {
            "[workflow]".to_owned()
        } else {
            let panel = &self.panels[count - 1];
            assert(self@.panels.last() == panel@);
            let title = phase_title(panel);
            let took = format_duration(elapsed_at(panel, now));
            cat2(title.as_str(), took.as_str())
        };
        cat5(phase.as_str(), "  ", spinner(self.spinner_index), " ", self.activity.as_str())
    }

    fn draw_top(&self, width: u16, height: u16, resized: bool, now: u64) -> (r: Vec<DrawCommand>)
        requires
            resized == (self@.last_size != Some((width, height))),
        ensures
            seen_all(r@) == top_drawn(self@, width, height, now),
    {
        let mut out: Vec<DrawCommand> = Vec::new();
        assert(seen_all(out@) =~= Seq::empty());
        if resized {
            push_draw(&mut out, DrawCommand::ClearAll);
        }
        let head = self.header_text();
        push_draw(&mut out, draw_row(0, width, head.as_str(), Color::Cyan, true));
        if height > 1 {
            let activity = self.activity_row(now);
            push_draw(&mut out, draw_row(1, width, activity.as_str(), Color::White, true));
        }
        if height > 2 {
            let line = draw_ruler(width);
            push_draw(&mut out, draw_row(2, width, line.as_str(), Color::DarkGrey, false));
        }
        assert(seen_all(out@) =~= top_drawn(self@, width, height, now));
        out
    }

    fn place_view(&mut self, lines: &Vec<RenderLine>, body: usize)
        requires
            body < 65536,
        ensures
            final(self)@ == (DashSpec {
                viewport_start: view_start(old(self)@, seen_all(lines@), body as int) as usize,
                ensure_selected: old(self)@.ensure_selected && heading_position(
                    seen_all(lines@),
                    old(self)@.selected_panel,
                    0,
                ) is None,
                ..old(self)@
            }),
            final(self)@.viewport_start == view_start(old(self)@, seen_all(lines@), body as int),
            final(self)@.viewport_start <= lines@.len(),
    {
        proof {
            law_view_stays_on_the_lines(self@, seen_all(lines@), body as int);
            lemma_heading_position(seen_all(lines@), self@.selected_panel, 0);
        }
        let count: usize = lines.len();
        assert(seen_all(lines@).len() == count);
        let maximum: usize = if count <= body {
            0
        } else {
            count - body
        };
        let start: usize = if self.follow_latest || self.viewport_start > maximum {
            maximum
        } else {
            self.viewport_start
        };
        let page: usize = if body == 0 {
            1
        } else {
            body
        };
        let back: usize = if body <= 1 {
            0
        } else {
            body - 1
        };
        self.viewport_start = start;
        if self.ensure_selected {
            if let Some(position) = find_heading(lines, self.selected_panel) {
                if position < start {
                    self.viewport_start = position;
                } else if position - start >= page {
                    self.viewport_start = if position <= back {
                        0
                    } else {
                        position - back
                    };
                }
                self.ensure_selected = false;
            }
        }
    }

    fn draw_body(
        &mut self,
        out: &mut Vec<DrawCommand>,
        lines: &Vec<RenderLine>,
        body: u16,
        width: u16,
    )
        requires
            body <= 65531,
            old(self)@.viewport_start <= lines@.len(),
        ensures
            seen_all(final(out)@) == seen_all(old(out)@) + body_drawn(
                seen_all(lines@),
                old(self)@.viewport_start as int,
                body as int,
                width,
            ),
            final(self)@ == (DashSpec {
                heading_rows: headings(
                    seen_all(lines@),
                    old(self)@.viewport_start as int,
                    shown_rows(
                        lines@.len(),
                        old(self)@.viewport_start as int,
                        body as int,
                    ) as nat,
                ),
                ..old(self)@
            }),
    {
        let ghost all = seen_all(lines@);
        let start: usize = self.viewport_start;
        let ghost was = seen_all(out@);
        let total: usize = lines.len();
        let rest: usize = total - start;
        let shown: u16 = if rest <= body as usize {
            rest as u16
        } else {
            body
        };
        let ghost drawn = body_drawn(all, start as int, body as int, width);
        let mut rows: Vec<(u16, usize)> = Vec::new();
        let mut i: u16 = 0;
        assert(was =~= was + drawn.take(0));
        assert(rows@ =~= headings(all, start as int, 0));
        while i < body
            invariant
                i <= body <= 65531,
                shown <= body,
                total == lines@.len(),
                start + shown <= total,
                shown == shown_rows(lines@.len(), start as int, body as int),
                all == seen_all(lines@),
                drawn == body_drawn(all, start as int, body as int, width),
                seen_all(out@) == was + drawn.take(i as int),
                rows@ == headings(
                    all,
                    start as int,
                    (if i <= shown {
                        i as int
                    } else {
                        shown as int
                    }) as nat,
                ),
            decreases body - i,
        {
            let row: u16 = 3 + i;
            if i < shown {
                let line = &lines[start + i as usize];
                assert(all[start + i] == line@);
                push_draw(out, draw_render_row(row, width, line));
                if let Some(panel) = line.panel {
                    rows.push((row, panel));
                }
            } else {
                push_draw(out, DrawCommand::ClearRow { row });
            }
            i += 1;
            assert(seen_all(out@) =~= was + drawn.take(i as int));
        }
        assert(drawn.take(i as int) =~= drawn);
        self.heading_rows = rows;
    }

    /// Draws a frame: what has to be done to the terminal.
    pub fn draw_to(&mut self, width: u16, height: u16, now: u64) -> (r: Vec<DrawCommand>)
        requires
            old(self)@.wf(),
        ensures
            if width == 0 || height == 0 {
                seen_all(r@) == Seq::<DrawSpec>::empty() && final(self)@ == old(self)@
            } else {
                seen_all(r@) == frame_drawn(old(self)@, width, height, now) && final(self)@
                    == after_frame(old(self)@, width, height, now)
            },
            final(self)@.wf(),
    {
        if width == 0 || height == 0 {
            let none: Vec<DrawCommand> = Vec::new();
            assert(seen_all(none@) =~= Seq::empty());
            return none;
        }
        let ghost d = self@;
        let held: usize = self.panels.len();
        assert(d.panels.len() == held);
        let resized = match self.last_size {
            Some((w, h)) => w != width || h != height,
            None => true,
        };
        let mut out = self.draw_top(width, height, resized, now);
        let lines = self.render_lines_at(now);
        self.draw_panels(&mut out, &lines, width, height);
        self.draw_footer(&mut out, width, height, resized, now);
        proof {
            let all = rendered(d, now);
            let body = body_rows(height);
            let start = view_start(d, all, body);
            law_view_stays_on_the_lines(d, all, body);
            lemma_headings(d, now, start, shown_rows(all.len(), start, body) as nat);
        }
        out
    }

    fn draw_footer(
        &mut self,
        out: &mut Vec<DrawCommand>,
        width: u16,
        height: u16,
        resized: bool,
        now: u64,
    )
        ensures
            ({
                let d = old(self)@;
                &&& seen_all(final(out)@) == seen_all(old(out)@) + if height > 3 && (resized
                    || d.last_footer != Some(footer_text(d))) {
                    seq![
                        row_drawn(
                            (height - 1) as u16,
                            width,
                            footer_text(d),
                            Color::DarkGrey,
                            false,
                        ),
                    ]
                } else {
                    Seq::empty()
                }
                &&& final(self)@ == (DashSpec {
                    last_size: Some((width, height)),
                    last_footer: if height > 3 {
                        Some(footer_text(d))
                    } else {
                        None
                    },
                    last_draw: now,
                    dirty: false,
                    ..d
                })
            }),
    {
        let ghost was = seen_all(out@);
        assert(was =~= was + Seq::empty());
        let footer = if height > 3 {
            let text = self.footer();
            let same = match &self.last_footer {
                Some(last) => equal(last.as_str(), text.as_str()),
                None => false,
            };
            if resized || !same {
                push_draw(
                    out,
                    draw_row(height - 1, width, text.as_str(), Color::DarkGrey, false),
                );
                assert(seen_all(out@) =~= was + seq![
                    row_drawn((height - 1) as u16, width, text@, Color::DarkGrey, false),
                ]);
            }
            Some(text)
        } else {
            None
        };
        self.last_size = Some((width, height));
        self.last_footer = footer;
        self.last_draw = now;
        self.dirty = false;
    }

    fn draw_panels(
        &mut self,
        out: &mut Vec<DrawCommand>,
        lines: &Vec<RenderLine>,
        width: u16,
        height: u16,
    )
        requires
            width > 0,
        ensures
            ({
                let d = old(self)@;
                let all = seen_all(lines@);
                let body = body_rows(height);
                let start = view_start(d, all, body);
                let bar = frame_bar(width, height, all.len(), start);
                let inner = if bar is Some {
                    (width - 1) as u16
                } else {
                    width
                };
                &&& seen_all(final(out)@) == seen_all(old(out)@) + body_drawn(
                    all,
                    start,
                    body,
                    inner,
                ) + match bar {
                    Some(bar) => bar_drawn(bar),
                    None => Seq::empty(),
                }
                &&& final(self)@ == (DashSpec {
                    viewport_start: start as usize,
                    ensure_selected: d.ensure_selected && heading_position(
                        all,
                        d.selected_panel,
                        0,
                    ) is None,
                    scrollbar: bar,
                    heading_rows: headings(all, start, shown_rows(all.len(), start, body) as nat),
                    ..d
                })
            }),
    {
        let body: u16 = if height <= 4 {
            0
        } else {
            height - 4
        };
        let ghost all = seen_all(lines@);
        let count: usize = lines.len();
        assert(all.len() == count);
        self.place_view(lines, body as usize);
        let maximum: usize = if count <= body as usize {
            0
        } else {
            count - body as usize
        };
        let bar = if maximum > 0 && body >= 3 {
            Some(
                scrollbar_geometry(width, 3, body, maximum, self.viewport_start, body as usize),
            )
        } else {
            None
        };
        self.scrollbar = bar;
        let inner: u16 = if bar.is_some() {
            width - 1
        } else {
            width
        };
        self.draw_body(out, lines, body, inner);
        let ghost drawn = seen_all(out@);
        if let Some(bar) = bar {
            draw_scrollbar(out, bar);
        } else {
            assert(drawn =~= drawn + Seq::empty());
        }
    }
}

proof fn lemma_panel_line(d: DashSpec, n: nat, now: u64, i: int)
    requires
        n <= d.panels.len(),
        d.panels.len() <= usize::MAX,
        0 <= i < panel_lines(d, n, now).len(),
    ensures
        panel_lines(d, n, now)[i].panel matches Some(p) ==> p < d.panels.len(),
    decreases n,
{
    if n > 0 {
        let front = panel_lines(d, (n - 1) as nat, now);
        if i < front.len() {
            lemma_panel_line(d, (n - 1) as nat, now, i);
        }
    }
}

proof fn lemma_headings(d: DashSpec, now: u64, start: int, n: nat)
    requires
        d.panels.len() <= usize::MAX,
        0 <= start,
        start + n <= rendered(d, now).len(),
    ensures
        forall|i: int|
            0 <= i < headings(rendered(d, now), start, n).len() ==> (#[trigger] headings(
                rendered(d, now),
                start,
                n,
            )[i]).1 < d.panels.len(),
    decreases n,
{
    if n > 0 {
        lemma_headings(d, now, start, (n - 1) as nat);
        let k = start + n - 1;
        let first = campaign_lines(d);
        let all = rendered(d, now);
        let front = headings(all, start, (n - 1) as nat);
        let rows = headings(all, start, n);
        if k >= first.len() {
            lemma_panel_line(d, d.panels.len(), now, k - first.len());
            assert(all[k] == panel_lines(d, d.panels.len(), now)[k - first.len()]);
        } else {
            assert(all[k] == first[k]);
            assert(first[k].panel is None);
        }
        assert forall|i: int| 0 <= i < rows.len() implies (#[trigger] rows[i]).1
            < d.panels.len() by {
            if i < front.len() {
                assert(rows[i] == front[i]);
            }
        }
    }
}

/// The first row names the repository last, and before it the iteration and the change, where
/// there are such.
pub proof fn law_the_heading_names_the_work(d: DashSpec)
    ensures
        d.repo.is_suffix_of(heading(d)),
        "opsx-build  "@.is_prefix_of(heading(d)),
        d.campaign is None && d.change_name is None ==> heading(d) == "opsx-build  "@ + d.repo,
        d.change_name matches Some(change) ==> (change + "  "@ + d.repo).is_suffix_of(heading(d)),
        d.campaign matches Some(c) ==> ("opsx-build  "@ + ("iteration "@ + decimal(
            c.iteration as nat,
        ))).is_prefix_of(heading(d)),
{
    let h = heading(d);
    let p = "opsx-build  "@;
    reveal_strlit("opsx-build  ");
    reveal_strlit("opsx-build  change: ");
    assert(h.subrange(h.len() - d.repo.len(), h.len() as int) =~= d.repo);
    assert(h.subrange(0, p.len() as int) =~= p);
    if d.change_name is Some {
        let z = d.change_name->0 + "  "@ + d.repo;
        assert(h.subrange(h.len() - z.len(), h.len() as int) =~= z);
    }
    if d.campaign is Some {
        let a = p + ("iteration "@ + decimal(d.campaign->0.iteration as nat));
        assert(h.subrange(0, a.len() as int) =~= a);
    }
}

/// A phase takes the whole seconds from its start to its end, or to now while it runs.
pub proof fn law_phases_take_whole_seconds(p: PanelSpec, now: u64)
    ensures
        p.finished_at is None && now >= p.started_at ==> 1_000 * elapsed(p, now) <= now
            - p.started_at < 1_000 * (elapsed(p, now) + 1),
        p.finished_at matches Some(t) ==> (t >= p.started_at ==> 1_000 * elapsed(p, now) <= t
            - p.started_at < 1_000 * (elapsed(p, now) + 1)),
        p.finished_at is Some ==> elapsed(p, 0) == elapsed(p, now),
{
}

/// The lines in view are the last ones where they are followed, and those where the viewer
/// left off otherwise. A panel that was selected is brought into view.
pub proof fn law_what_is_in_view(d: DashSpec, lines: Seq<RenderSpec>, body: int)
    requires
        body > 0,
    ensures
        !d.ensure_selected && d.follow_latest && lines.len() > body ==> view_start(d, lines, body)
            == lines.len() - body,
        !d.ensure_selected && lines.len() <= body ==> view_start(d, lines, body) == 0,
        !d.ensure_selected && !d.follow_latest && d.viewport_start + body <= lines.len()
            ==> view_start(d, lines, body) == d.viewport_start,
        d.ensure_selected ==> (heading_position(lines, d.selected_panel, 0) matches Some(at)
            ==> view_start(d, lines, body) <= at < view_start(d, lines, body) + body),
{
    if heading_position(lines, d.selected_panel, 0) is Some {
        lemma_heading_first(lines, d.selected_panel, 0);
    }
}

proof fn lemma_heading_first(lines: Seq<RenderSpec>, panel: usize, from: int)
    requires
        0 <= from,
    ensures
        heading_position(lines, panel, from) matches Some(at) ==> {
            &&& from <= at < lines.len()
            &&& lines[at].panel == Some(panel)
            &&& forall|i: int| from <= i < at ==> (#[trigger] lines[i]).panel != Some(panel)
        },
    decreases lines.len() - from,
{
    if from < lines.len() && lines[from].panel != Some(panel) {
        lemma_heading_first(lines, panel, from + 1);
    }
}

/// The heading of a panel is found where it stands first.
pub proof fn law_headings_are_found(lines: Seq<RenderSpec>, panel: usize)
    ensures
        heading_position(lines, panel, 0) matches Some(at) ==> {
            &&& 0 <= at < lines.len()
            &&& lines[at].panel == Some(panel)
            &&& forall|i: int| 0 <= i < at ==> (#[trigger] lines[i]).panel != Some(panel)
        },
{
    lemma_heading_first(lines, panel, 0);
}

/// A panel that is open shows its heading and every line of it, in order. One that is closed
/// shows its heading alone.
pub proof fn law_open_panels_show_their_lines(d: DashSpec, n: nat, now: u64, i: int)
    requires
        0 < n <= d.panels.len(),
    ensures
        ({
            let p = d.panels[n - 1];
            let before = panel_lines(d, (n - 1) as nat, now).len() as int;
            let r = panel_lines(d, n, now);
            &&& r[before].panel == Some((n - 1) as usize)
            &&& p.expanded ==> r.len() == before + 1 + p.lines.len()
            &&& !p.expanded ==> r.len() == before + 1
            &&& p.expanded && 0 <= i < p.lines.len() ==> r[before + 1 + i].text == p.lines[i].text
                && r[before + 1 + i].source == p.lines[i].source && r[before + 1 + i].color
                == p.lines[i].color && r[before + 1 + i].panel is None
            &&& p.status == PhaseStatus::Running ==> r[before].color == Color::Yellow
            &&& p.status == PhaseStatus::Complete ==> r[before].color == Color::Green
            &&& p.status == PhaseStatus::Failed ==> r[before].color == Color::Red
        }),
{
}

/// A campaign shows every iteration that is over, in order, and the one that goes on last.
pub proof fn law_campaigns_show_their_iterations(d: DashSpec, i: int)
    ensures
        d.campaign is None ==> campaign_lines(d).len() == 0,
        d.campaign matches Some(c) ==> {
            &&& campaign_lines(d).len() == c.completed.len() + 1
            &&& ("  ◆ iteration "@ + decimal(c.iteration as nat)).is_prefix_of(
                campaign_lines(d).last().text,
            )
            &&& 0 <= i < c.completed.len() ==> ("  ✓ iteration "@ + decimal(
                c.completed[i].iteration as nat,
            ) + " · "@ + c.completed[i].change).is_prefix_of(campaign_lines(d)[i].text)
        },
{
    if d.campaign is Some {
        let c = d.campaign->0;
        let a = "  ◆ iteration "@ + decimal(c.iteration as nat);
        let t = campaign_lines(d).last().text;
        assert(t.subrange(0, a.len() as int) =~= a);
        if 0 <= i < c.completed.len() {
            let b = "  ✓ iteration "@ + decimal(c.completed[i].iteration as nat) + " · "@
                + c.completed[i].change;
            let u = campaign_lines(d)[i].text;
            assert(u == iteration_line(c.completed[i]).text);
            assert(u.subrange(0, b.len() as int) =~= b);
        }
    }
}

/// The last row asks what is to be confirmed, shows what is written, or names the keys, in
/// that order.
pub proof fn law_the_last_row_tells_what_is_asked(d: DashSpec)
    ensures
        d.pending_confirmation matches Some(a) ==> a.question().is_prefix_of(footer_text(d)),
        d.pending_confirmation is None ==> (d.injection_input matches Some(input) ==> ("steer> "@
            + input).is_prefix_of(footer_text(d))),
        d.pending_confirmation is None && d.injection_input is None ==> "p pause"@.is_prefix_of(
            footer_text(d),
        ),
{
    let f = footer_text(d);
    if d.pending_confirmation is Some {
        let q = d.pending_confirmation->0.question();
        assert(f.subrange(0, q.len() as int) =~= q);
    } else if d.injection_input is Some {
        let q = "steer> "@ + d.injection_input->0;
        assert(f.subrange(0, q.len() as int) =~= q);
    } else {
        let q = "p pause"@;
        assert(f.subrange(0, q.len() as int) =~= q);
    }
}

/// A frame draws every row of the panels once: the lines in view from the fourth row on, and
/// the rows below them cleared. What was drawn is no longer to be drawn.
pub proof fn law_frames_draw_every_row(
    lines: Seq<RenderSpec>,
    start: int,
    body: int,
    width: u16,
    i: int,
    d: DashSpec,
    height: u16,
    now: u64,
)
    requires
        0 <= start <= lines.len(),
        0 <= i < body <= 65_000,
    ensures
        body_drawn(lines, start, body, width).len() == body,
        start + i < lines.len() ==> body_drawn(lines, start, body, width)[i] == line_drawn(
            (3 + i) as u16,
            width,
            lines[start + i],
        ),
        start + i >= lines.len() ==> body_drawn(lines, start, body, width)[i]
            == (DrawSpec::ClearRow { row: (3 + i) as u16 }),
        !after_frame(d, width, height, now).dirty,
        after_frame(d, width, height, now).last_size == Some((width, height)),
        after_frame(d, width, height, now).panels == d.panels,
        d.last_size != Some((width, height)) ==> frame_drawn(d, width, height, now)[0] is ClearAll,
{
}

} // verus!
