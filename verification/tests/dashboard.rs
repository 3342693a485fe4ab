use opsx_build::dashboard::{
    sanitize, CampaignDashboardView, CampaignIterationDashboardView, Color, Event, KeyCode,
    KeyEvent, MouseEvent, MouseKind, PendingConfirmation, PhaseStatus, SourceLabel, StageView,
    StreamDashboard, MAX_MESSAGE_LINES, MESSAGE_HEAD_LINES,
};
use opsx_build::frame::DrawCommand;
use opsx_build::names::Harness;
use opsx_build::screen::{
    format_duration, rounded_divide, scrollbar_geometry, scrollbar_position_for_row,
};
use opsx_build::stream::{StreamControl, StreamItem};

fn harness() -> Harness {
    Harness { title: "Agent".to_owned(), name: "agent".to_owned() }
}

fn stage(current: usize, total: usize, title: &str, started_at: u64) -> StageView {
    StageView { current, total, title: title.to_owned(), started_at }
}

fn dashboard() -> StreamDashboard {
    let mut dashboard = StreamDashboard::enter("/repo".to_owned(), None, None, 0);
    dashboard.set_stage(stage(1, 7, "Explore", 0), 0);
    dashboard
}

fn key(code: KeyCode) -> Event {
    Event::Key(KeyEvent { code, press: true, control: false, typing: true })
}

fn letter(c: char) -> Event {
    key(KeyCode::Char(c))
}

fn press(dashboard: &mut StreamDashboard, event: Event) -> StreamControl {
    dashboard.handle_event(&event, 10)
}

fn last_line(dashboard: &StreamDashboard) -> String {
    dashboard.panels.last().unwrap().lines.last().unwrap().text.clone()
}

fn shown(frame: &[DrawCommand]) -> String {
    frame
        .iter()
        .map(|command| match command {
            DrawCommand::Row { text, .. } => text.clone(),
            DrawCommand::Labelled { label, text, .. } => format!("{label}{text}"),
            _ => String::new(),
        })
        .collect::<Vec<_>>()
        .join("\n")
}

fn clears_all(frame: &[DrawCommand]) -> bool {
    frame.iter().any(|command| matches!(command, DrawCommand::ClearAll))
}

fn touches(frame: &[DrawCommand], wanted: u16) -> bool {
    frame.iter().any(|command| match command {
        DrawCommand::Row { row, .. }
        | DrawCommand::Labelled { row, .. }
        | DrawCommand::ClearRow { row }
        | DrawCommand::Symbol { row, .. } => *row == wanted,
        DrawCommand::ClearAll => false,
    })
}

#[test]
fn stages_have_separate_collapsible_panels() {
    let mut dashboard = dashboard();
    dashboard.push(&StreamItem::Assistant("exploring".to_owned()), &harness());
    dashboard.set_stage(stage(2, 7, "Propose", 1), 1);
    dashboard.push(&StreamItem::Assistant("proposing".to_owned()), &harness());

    assert_eq!(dashboard.panels.len(), 2);
    assert!(!dashboard.panels[0].expanded);
    assert_eq!(dashboard.panels[0].status, PhaseStatus::Complete);
    assert!(dashboard.panels[1].expanded);
    assert_eq!(dashboard.panels[0].lines[0].text, "exploring");
    assert_eq!(dashboard.panels[1].lines[0].text, "proposing");
    assert_eq!(
        dashboard.panels[0].lines[0].source,
        Some(SourceLabel { text: "agent".to_owned(), color: Color::Cyan })
    );
}

#[test]
fn long_claude_messages_keep_their_beginning_and_conclusion() {
    let mut dashboard = dashboard();
    let message = (0..250).map(|line| format!("line {line}")).collect::<Vec<_>>().join("\n");

    dashboard.push(&StreamItem::Assistant(message), &harness());

    let lines = &dashboard.panels[0].lines;
    assert_eq!(lines.len(), MAX_MESSAGE_LINES + 1);
    assert_eq!(lines[0].text, "line 0");
    assert_eq!(lines[MESSAGE_HEAD_LINES - 1].text, "line 119");
    assert_eq!(
        lines[MESSAGE_HEAD_LINES].text,
        "… 50 lines omitted from this Agent message …"
    );
    assert_eq!(lines[MESSAGE_HEAD_LINES + 1].text, "line 170");
    assert_eq!(lines.last().unwrap().text, "line 249");
}

#[test]
fn opencode_messages_have_their_own_source_label() {
    let mut dashboard = dashboard();

    dashboard.push(&StreamItem::OpenCode("working".to_owned()), &harness());

    assert_eq!(dashboard.panels[0].lines[0].text, "working");
    assert_eq!(
        dashboard.panels[0].lines[0].source,
        Some(SourceLabel { text: "opencode".to_owned(), color: Color::Cyan })
    );
}

#[test]
fn header_shows_change_name_when_known() {
    let mut dashboard = dashboard();
    assert_eq!(dashboard.header_text(), "opsx-build  /repo");

    dashboard.set_change_name(Some("slice-m-test-infrastructure".to_owned()));
    assert_eq!(
        dashboard.header_text(),
        "opsx-build  change: slice-m-test-infrastructure  /repo"
    );
}

#[test]
fn first_campaign_iteration_clears_bootstrap_panels() {
    let mut dashboard = dashboard();
    dashboard.set_change_name(Some("bootstrap-implementation-slices".to_owned()));
    for (index, title) in [
        "Propose",
        "Proposal commit",
        "Apply",
        "Verify",
        "Archive",
        "Completion commit",
    ]
    .iter()
    .enumerate()
    {
        let title = format!("{title} · frontier (codex-frontier, codex)");
        dashboard.set_stage(stage(index + 1, 6, &title, 0), 0);
    }
    assert!(dashboard.header_text().contains("bootstrap-implementation-slices"));

    dashboard.set_campaign(Some(CampaignDashboardView {
        iteration: 1,
        max_iterations: None,
        completed: Vec::new(),
    }));
    dashboard.set_change_name(Some("0001-reproducible-go-bindings".to_owned()));
    dashboard.set_stage(stage(1, 6, "Propose · worker (codex-worker, codex)", 0), 0);

    assert_eq!(dashboard.panels.len(), 1);
    let lines = dashboard.render_lines_at(0);
    assert_eq!(
        lines[0].text,
        "  ◆ iteration 1 · current · 0001-reproducible-go-bindings"
    );
    assert!(lines[1].text.contains("[1/6] Propose · worker"));
    assert!(!lines.iter().any(|line| line.text.contains("frontier")));
}

#[test]
fn campaign_header_and_summary_survive_iteration_reset() {
    let mut dashboard = dashboard();
    dashboard.set_campaign(Some(CampaignDashboardView {
        iteration: 2,
        max_iterations: Some(10),
        completed: vec![CampaignIterationDashboardView {
            iteration: 1,
            change: "slice-a".to_owned(),
            final_head: Some("1234567890abcdef".to_owned()),
            elapsed_seconds: Some(65),
        }],
    }));

    assert_eq!(dashboard.header_text(), "opsx-build  iteration 2/10  /repo");
    assert!(dashboard.panels.is_empty());
    let lines = dashboard.render_lines_at(0);
    assert!(lines[0].text.contains("iteration 1 · slice-a"));
    assert!(lines[0].text.contains("1m 05s"));
    assert!(lines[0].text.contains("1234567890ab"));
    assert_eq!(lines[1].text, "  ◆ iteration 2 · current");

    dashboard.set_change_name(Some("slice-b".to_owned()));
    dashboard.set_stage(stage(2, 6, "Propose", 0), 0);
    let lines = dashboard.render_lines_at(0);
    assert_eq!(lines[1].text, "  ◆ iteration 2 · current · slice-b");
    assert!(lines[2].text.contains("[2/6] Propose"));
}

#[test]
fn campaign_q_requests_a_stop_after_the_current_iteration() {
    let mut dashboard = dashboard();
    dashboard.campaign = Some(CampaignDashboardView {
        iteration: 1,
        max_iterations: None,
        completed: Vec::new(),
    });
    assert_eq!(press(&mut dashboard, letter('q')), StreamControl::Idle);
    assert!(!dashboard.stop_after_iteration_requested());
    assert_eq!(press(&mut dashboard, letter('y')), StreamControl::Idle);
    assert!(dashboard.stop_after_iteration_requested());
    assert!(last_line(&dashboard).contains("pause after"));
}

#[test]
fn scrollbar_buttons_track_and_drag_control_the_viewport() {
    let mut dashboard = dashboard();
    let scrollbar = scrollbar_geometry(80, 3, 12, 90, 0, 10);
    dashboard.scrollbar = Some(scrollbar);

    let mouse =
        |kind, row| Event::Mouse(MouseEvent { kind, column: scrollbar.column, row });
    press(&mut dashboard, mouse(MouseKind::Down, scrollbar.top + scrollbar.height - 1));
    assert_eq!(dashboard.viewport_start, 1);

    press(&mut dashboard, mouse(MouseKind::Down, scrollbar.top + scrollbar.height - 2));
    press(&mut dashboard, mouse(MouseKind::Drag, scrollbar.top + scrollbar.height - 2));
    press(&mut dashboard, mouse(MouseKind::Up, scrollbar.top + scrollbar.height - 2));
    assert_eq!(dashboard.viewport_start, scrollbar.max_position);
    assert!(dashboard.follow_latest);
    assert_eq!(dashboard.scrollbar_drag, None);
}

#[test]
fn repeated_stage_headings_get_pass_numbers() {
    let mut dashboard = dashboard();
    dashboard.set_stage(stage(5, 7, "Verify", 0), 0);
    dashboard.set_stage(stage(5, 7, "Verify", 0), 0);
    assert_eq!(dashboard.panels[1].occurrence, 1);
    assert_eq!(dashboard.panels[2].occurrence, 2);
    assert!(dashboard.render_lines_at(0)[2].text.contains("pass 2"));
}

#[test]
fn stage_headings_show_live_and_frozen_elapsed_time() {
    let mut dashboard = dashboard();
    let now = 100_000;
    dashboard.panels[0].stage.started_at = now - 65_000;

    assert!(dashboard.render_lines_at(now)[0].text.contains("1m 05s"));

    dashboard.panels[0].finished_at = Some(now);
    assert!(dashboard.render_lines_at(now + 60_000)[0].text.contains("1m 05s"));
}

#[test]
fn formats_stage_durations_compactly() {
    assert_eq!(format_duration(9), "9s");
    assert_eq!(format_duration(65), "1m 05s");
    assert_eq!(format_duration(7_445), "2h 04m 05s");
}

#[test]
fn disclosure_controls_toggle_selected_panel_and_ctrl_c_cancels() {
    let mut dashboard = dashboard();
    assert_eq!(press(&mut dashboard, key(KeyCode::Enter)), StreamControl::Idle);
    assert!(!dashboard.panels[0].expanded);
    dashboard.heading_rows = vec![(5, 0)];
    let click = Event::Mouse(MouseEvent { kind: MouseKind::Down, column: 2, row: 5 });
    assert_eq!(press(&mut dashboard, click), StreamControl::Idle);
    assert!(dashboard.panels[0].expanded);
    let cancel = Event::Key(KeyEvent {
        code: KeyCode::Char('c'),
        press: true,
        control: true,
        typing: false,
    });
    assert_eq!(press(&mut dashboard, cancel), StreamControl::Interrupt);
}

#[test]
fn plain_p_requires_confirmation_before_an_immediate_pause() {
    let mut dashboard = dashboard();
    assert_eq!(press(&mut dashboard, letter('p')), StreamControl::Idle);
    assert_eq!(dashboard.pending_confirmation, Some(PendingConfirmation::Pause));
    assert_eq!(press(&mut dashboard, letter('n')), StreamControl::Idle);
    assert_eq!(dashboard.pending_confirmation, None);

    press(&mut dashboard, letter('p'));
    assert_eq!(press(&mut dashboard, letter('y')), StreamControl::Pause);
    assert!(last_line(&dashboard).contains("checkpoint will be preserved"));
}

#[test]
fn plain_f_requests_frontier_escalation() {
    let mut dashboard = dashboard();
    assert_eq!(press(&mut dashboard, letter('f')), StreamControl::Idle);
    assert_eq!(press(&mut dashboard, letter('y')), StreamControl::Escalate);
    assert!(last_line(&dashboard).contains("frontier replanning"));
}

#[test]
fn local_only_dashboard_does_not_offer_frontier_escalation() {
    let mut dashboard = dashboard();
    dashboard.set_frontier_enabled(false);
    assert_eq!(press(&mut dashboard, letter('f')), StreamControl::Idle);
    assert_eq!(dashboard.pending_confirmation, None);
    assert!(last_line(&dashboard).contains("disabled"));
}

#[test]
fn frontier_escalation_does_not_interrupt_a_milestone_phase() {
    let mut dashboard = dashboard();
    dashboard.set_stage(stage(3, 7, "Proposal commit", 0), 0);
    assert_eq!(press(&mut dashboard, letter('f')), StreamControl::Idle);
    assert!(last_line(&dashboard).contains("available only"));
}

#[test]
fn plain_c_queues_one_compaction_per_stream() {
    let mut dashboard = dashboard();
    assert_eq!(press(&mut dashboard, letter('c')), StreamControl::Idle);
    assert_eq!(press(&mut dashboard, letter('y')), StreamControl::Compact);
    assert_eq!(press(&mut dashboard, letter('c')), StreamControl::Idle);
    assert!(last_line(&dashboard).contains("Requested mid-command compaction"));

    dashboard.start_stream("next agent invocation");
    assert_eq!(press(&mut dashboard, letter('c')), StreamControl::Idle);
    assert_eq!(press(&mut dashboard, letter('y')), StreamControl::Compact);
}

#[test]
fn capital_c_queues_one_context_inspection_per_stream() {
    let mut dashboard = dashboard();
    assert_eq!(press(&mut dashboard, letter('C')), StreamControl::Idle);
    assert_eq!(press(&mut dashboard, letter('y')), StreamControl::Context);
    assert_eq!(press(&mut dashboard, letter('C')), StreamControl::Idle);
    assert!(last_line(&dashboard).contains("Requested context inspection"));

    dashboard.start_stream("next agent invocation");
    assert_eq!(press(&mut dashboard, letter('C')), StreamControl::Idle);
    assert_eq!(press(&mut dashboard, letter('y')), StreamControl::Context);
}

#[test]
fn i_opens_an_injection_prompt_and_enter_queues_the_message() {
    let mut dashboard = dashboard();
    assert_eq!(press(&mut dashboard, letter('i')), StreamControl::Idle);
    assert_eq!(dashboard.injection_input.as_deref(), Some(""));
    for character in "/compact".chars() {
        assert_eq!(press(&mut dashboard, letter(character)), StreamControl::Idle);
    }
    assert_eq!(
        press(&mut dashboard, key(KeyCode::Enter)),
        StreamControl::Inject("/compact".to_owned())
    );
    assert!(dashboard.injection_input.is_none());

    press(&mut dashboard, letter('i'));
    press(&mut dashboard, letter('x'));
    assert_eq!(press(&mut dashboard, key(KeyCode::Esc)), StreamControl::Idle);
    assert!(dashboard.injection_input.is_none());
}

#[test]
fn sanitizes_terminal_control_characters() {
    assert_eq!(sanitize("safe\u{1b}[2J\ttext"), "safe[2J text");
}

#[test]
fn codex_redraw_does_not_erase_unchanged_keyboard_help() {
    let mut dashboard = dashboard();
    let frame = dashboard.draw_to(180, 12, 0);
    assert!(shown(&frame).contains("p pause"));

    dashboard.push(&StreamItem::Codex("new Codex output".to_owned()), &harness());
    dashboard.spinner_index += 1;
    let frame = dashboard.draw_to(180, 12, 0);

    assert!(shown(&frame).contains("new Codex output"));
    assert!(!clears_all(&frame));
    assert!(!touches(&frame, 11));
    assert!(!shown(&frame).contains("p pause"));
}

#[test]
fn keyboard_help_refreshes_for_controls_and_terminal_resize() {
    let mut dashboard = dashboard();
    dashboard.draw_to(180, 12, 0);

    press(&mut dashboard, letter('p'));
    let frame = dashboard.draw_to(180, 12, 0);
    assert!(shown(&frame).contains(PendingConfirmation::Pause.prompt()));
    assert!(!clears_all(&frame));

    press(&mut dashboard, key(KeyCode::Esc));
    let frame = dashboard.draw_to(180, 12, 0);
    assert!(shown(&frame).contains("p pause"));

    let frame = dashboard.draw_to(100, 15, 0);
    assert!(clears_all(&frame));
    assert!(touches(&frame, 14));
    assert!(shown(&frame).contains("p pause"));
}

#[test]
fn collapsing_output_clears_old_body_rows_without_erasing_help() {
    let mut dashboard = dashboard();
    dashboard.push(&StreamItem::Codex("first\nsecond\nthird".to_owned()), &harness());
    dashboard.draw_to(120, 10, 0);

    dashboard.panels[0].expanded = false;
    let frame = dashboard.draw_to(120, 10, 0);
    for wanted in 4..9 {
        assert!(frame
            .iter()
            .any(|command| matches!(command, DrawCommand::ClearRow { row } if *row == wanted)));
    }
    assert!(!clears_all(&frame));
    assert!(!touches(&frame, 9));
    assert!(!shown(&frame).contains("second"));
}

#[test]
fn long_rows_are_cut_to_the_width_of_the_terminal() {
    let mut dashboard = dashboard();
    dashboard.set_change_name(Some("a-very-long-change-name-that-does-not-fit".to_owned()));
    let frame = dashboard.draw_to(30, 12, 0);
    for command in &frame {
        if let DrawCommand::Row { text, .. } = command {
            assert!(text.chars().count() <= 30, "{text}");
        }
    }
}

#[test]
fn the_display_forgets_its_oldest_lines() {
    let mut dashboard = dashboard();
    for n in 0..200 {
        let text = (0..150).map(|k| format!("{n}.{k}")).collect::<Vec<_>>().join("\n");
        dashboard.push(&StreamItem::Codex(text), &harness());
    }
    let kept: usize = dashboard.panels.iter().map(|panel| panel.lines.len()).sum();
    assert_eq!(kept, dashboard.retained_lines);
    assert!(kept < 200 * 150);
    let panel = &dashboard.panels[0];
    assert_eq!(panel.total_lines, panel.dropped_lines + panel.lines.len() as u64);
    assert_eq!(panel.lines.last().unwrap().text, "199.149");
}

#[test]
fn scrollbars_reach_both_ends() {
    let bar = scrollbar_geometry(80, 3, 12, 90, 0, 10);
    assert_eq!(scrollbar_position_for_row(bar, bar.top, 0), 0);
    assert_eq!(scrollbar_position_for_row(bar, bar.top + bar.height, 0), 90);
    assert_eq!(rounded_divide(5, 2), 3);
    assert_eq!(rounded_divide(4, 3), 1);
}
