use gemini_live_transcribe::capture::SourceKind;
use gemini_live_transcribe::normalize::{
    is_cjk, is_cjk_punctuation, normalize_transcript_text, should_drop_inter_cjk_space,
};
use gemini_live_transcribe::seconds::Seconds;
use gemini_live_transcribe::transcript::DisplayAction;
use gemini_live_transcribe::ui::{
    abbreviate_token_count, compute_scroll, format_relative_time, handle_terminal_input,
    handle_ui_event, inner_rect, is_degraded_status, wrap_display_line, wrap_display_lines, App,
    AppEvent, Area, DisplayLine, PaneTurnState, SourcePane, TerminalInput, Tint, UsageSnapshot,
    MAX_NOTICES, MAX_TURNS_PER_SOURCE,
};
use gemini_live_transcribe::wrap::{char_display_width, wrap_line};

const SECOND: u128 = 1_000_000_000;

#[test]
fn updates_existing_draft_turn_by_id() {
    let mut pane = SourcePane::default();
    pane.update_draft("turn-1".into(), "hello".into(), 5 * SECOND);
    pane.update_draft("turn-1".into(), "hello world".into(), 6 * SECOND);

    assert_eq!(pane.turns.len(), 1);
    assert_eq!(pane.turns[0].draft_text, "hello world");
    assert_eq!(pane.turns[0].state, PaneTurnState::Draft);
    assert_eq!(pane.turns[0].started_at, 5 * SECOND);
}

#[test]
fn marks_turn_pending_and_finalized() {
    let mut pane = SourcePane::default();
    pane.update_draft("turn-1".into(), "hello".into(), SECOND);
    pane.mark_pending("turn-1");
    pane.mark_final("turn-1", "hello world".into(), DisplayAction::NewBlock);

    assert_eq!(pane.turns[0].final_text.as_deref(), Some("hello world"));
    assert_eq!(pane.turns[0].state, PaneTurnState::Final);
}

#[test]
fn groups_append_previous_block_visually() {
    let mut pane = SourcePane::default();
    pane.update_draft("turn-1".into(), "first".into(), SECOND);
    pane.mark_final("turn-1", "first".into(), DisplayAction::NewBlock);
    pane.update_draft("turn-2".into(), "second".into(), 2 * SECOND);
    pane.mark_final("turn-2", "second".into(), DisplayAction::AppendPreviousBlock);

    let lines = pane.display_lines();
    assert_eq!(lines[1].prefix, "           ");
}

fn app() -> App {
    App::new("model".into(), "lang: zh-Hant".into(), vec![SourceKind::Microphone], 0)
}

#[test]
fn app_updates_queue_metrics() {
    let mut app = app();

    assert!(app.apply(AppEvent::QueueMetrics {
        source: SourceKind::Microphone,
        queue_depth: 2,
        pending_audio_secs: Seconds::of_nanos(3_500_000_000),
    }));
}

fn thousandths(rms: f32) -> u32 {
    (rms * 1000.0).round() as u32
}

#[test]
fn app_updates_capture_rms() {
    let mut app = app();

    assert!(app.apply(AppEvent::CaptureLevel {
        source: SourceKind::Microphone,
        rms_thousandths: thousandths(0.0124),
    }));
    assert!(!app.apply(AppEvent::CaptureLevel {
        source: SourceKind::Microphone,
        rms_thousandths: thousandths(0.01249),
    }));
}

#[test]
fn removes_spaces_between_cjk_characters() {
    assert_eq!(
        normalize_transcript_text("我 不 知 道 這 樣 子 能 不 能 work 。"),
        "我不知道這樣子能不能 work。"
    );
}

#[test]
fn preserves_spaces_between_cjk_and_latin_words() {
    assert_eq!(normalize_transcript_text("這 個 remix 很 奇 怪"), "這個 remix 很奇怪");
}

#[test]
fn normalizing_is_idempotent_and_keeps_the_ink() {
    for text in ["  a  b ", "我 \u{3000} a 。 b", "", "한 글 カ ナ x"] {
        let shown = normalize_transcript_text(text);
        assert_eq!(normalize_transcript_text(&shown), shown);
        let ink = |text: &str| text.chars().filter(|c| !c.is_whitespace()).collect::<String>();
        assert_eq!(ink(&shown), ink(text));
    }
    assert_eq!(normalize_transcript_text("  a \n b "), "a b");
    assert!(is_cjk('字'));
    assert!(!is_cjk('x'));
    assert!(is_cjk_punctuation('。'));
    assert!(should_drop_inter_cjk_space(Some('字'), Some('。')));
    assert!(!should_drop_inter_cjk_space(Some('x'), Some('字')));
    assert!(!should_drop_inter_cjk_space(None, Some('字')));
}

#[test]
fn wraps_long_lines_to_requested_width() {
    assert_eq!(wrap_line("abcdef", 3), vec!["abc".to_string(), "def".to_string()]);
}

#[test]
fn wraps_by_columns() {
    assert_eq!(char_display_width('a'), 1);
    assert_eq!(char_display_width('字'), 2);
    assert_eq!(char_display_width('\u{301}'), 0);
    assert_eq!(char_display_width('\u{7}'), 0);
    assert_eq!(wrap_line("字字字", 5), vec!["字字".to_string(), "字".to_string()]);
    assert_eq!(wrap_line("字字", 1), vec!["字".to_string(), "字".to_string()]);
    assert_eq!(wrap_line("", 4), vec![String::new()]);
}

#[test]
fn wraps_timestamped_lines_with_hanging_indent() {
    let wrapped = wrap_display_line(
        &DisplayLine {
            prefix: "00:00:05 | ".into(),
            text: "abcdefgh".into(),
            tint: Tint::Plain,
        },
        14,
    );

    assert_eq!(
        wrapped,
        vec![
            "00:00:05 | abc".to_string(),
            "           def".to_string(),
            "           gh".to_string()
        ]
    );
}

#[test]
fn narrow_lines_are_wrapped_with_their_prefix() {
    let line = DisplayLine::transcript(5 * SECOND, "ab".into(), Tint::Yellow, None);
    assert_eq!(line.prefix, "00:00:05 | ");
    assert_eq!(wrap_display_line(&line, 11), vec!["00:00:05 | ".to_string(), "ab".to_string()]);
    let lines = vec![line, DisplayLine::plain("abc".into(), Tint::Red)];
    let screen = wrap_display_lines(&lines, 12);
    let texts: Vec<&str> = screen.iter().map(|line| line.text.as_str()).collect();
    assert_eq!(texts, vec!["00:00:05 | a", "           b", "abc"]);
    assert_eq!(screen[1].tint, Tint::Yellow);
    assert_eq!(screen[2].tint, Tint::Red);
}

#[test]
fn formats_relative_time_as_hms() {
    assert_eq!(format_relative_time(0), "00:00:00");
    assert_eq!(format_relative_time(3661 * SECOND), "01:01:01");
}

#[test]
fn waiting_audio_is_shown_in_single_precision() {
    let mut pane = SourcePane::default();
    assert!(pane.set_queue_metrics(1, Seconds::of_nanos(350_000_000)));
    assert!(pane.title(SourceKind::Microphone).contains("q 1 | 0.3s"));
    assert!(pane.set_queue_metrics(1, Seconds::of_nanos(100_000_000_000)));
    assert!(!pane.set_queue_metrics(1, Seconds::of_nanos(100_000_000_500)));
    assert!(pane.title(SourceKind::Microphone).contains("q 1 | 100.0s"));
    assert!(pane.set_queue_metrics(0, Seconds::of_nanos(100_000_000_500)));
    assert!(pane.title(SourceKind::Microphone).contains("q 0"));
}

#[test]
fn includes_queue_and_usage_in_title() {
    let mut pane = SourcePane {
        draft_status: "listening".into(),
        finalizer_status: "ready".into(),
        capture_rms_thousandths: Some(12),
        queue_depth: 2,
        pending_audio_secs: Seconds::of_nanos(1_500_000_000),
        ..SourcePane::default()
    };
    assert!(pane.set_usage(UsageSnapshot {
        prompt_token_count: 10,
        cached_content_token_count: 2,
        response_token_count: 5,
        tool_use_prompt_token_count: 0,
        thoughts_token_count: 0,
        total_token_count: 1500,
    }));

    assert_eq!(
        pane.title(SourceKind::Microphone),
        "microphone [d:listening | f:ready | rms 0.012 | q 2 | 1.5s | ctx 10]"
    );
}

#[test]
fn token_counts_are_shortened() {
    assert_eq!(abbreviate_token_count(999), "999");
    assert_eq!(abbreviate_token_count(1_000), "1.0k");
    assert_eq!(abbreviate_token_count(32_768), "32.8k");
    assert_eq!(abbreviate_token_count(1_250_000), "1.2M");
}

#[test]
fn idle_panes_wait() {
    let pane = SourcePane::default();
    assert_eq!(pane.title(SourceKind::SystemAudio), "system audio [d: | f: | rms -- | q 0]");
    assert_eq!(pane.border_style(), Tint::Gray);
    let lines = pane.display_lines();
    assert_eq!(lines.len(), 1);
    assert_eq!(lines[0].text, "waiting for transcription…");
    assert_eq!(lines[0].tint, Tint::DarkGray);
}

#[test]
fn borders_tell_the_state_of_a_source() {
    let mut pane = SourcePane::default();
    assert!(pane.set_draft_status("listening".into()));
    assert!(!pane.set_draft_status("listening".into()));
    assert_eq!(pane.border_style(), Tint::Green);
    assert!(pane.set_finalizer_status("reconnecting".into()));
    assert_eq!(pane.border_style(), Tint::Yellow);
    assert!(pane.set_error("no device".into()));
    assert!(!pane.set_error("no device".into()));
    assert_eq!(pane.border_style(), Tint::Red);
    let lines = pane.display_lines();
    assert_eq!(lines[lines.len() - 1].text, "no device");
    assert_eq!(lines[lines.len() - 1].tint, Tint::Red);
    for status in ["resuming", "reconnecting", "starting", "connecting"] {
        assert!(is_degraded_status(status));
    }
    assert!(!is_degraded_status("ready"));
}

#[test]
fn turns_are_told_apart_by_text_and_color() {
    let mut pane = SourcePane::default();
    for (i, id) in ["a", "b", "c", "d"].iter().enumerate() {
        pane.update_draft(id.to_string(), "text".into(), i as u128 * SECOND);
    }
    assert!(pane.mark_pending("b"));
    assert!(!pane.mark_pending("b"));
    pane.mark_final("c", "final".into(), DisplayAction::AppendPreviousBlock);
    assert!(pane.mark_failed("d", "lost".into()));
    assert!(!pane.mark_failed("d", "lost".into()));
    assert!(!pane.mark_pending("missing"));
    let lines = pane.display_lines();
    let shown: Vec<(String, Tint)> =
        lines.iter().map(|line| (format!("{}{}", line.prefix, line.text), line.tint)).collect();
    assert_eq!(
        shown,
        vec![
            ("00:00:00 | [draft] text".to_string(), Tint::Yellow),
            ("00:00:01 | [pending] text".to_string(), Tint::LightYellow),
            ("00:00:02 | final".to_string(), Tint::White),
            ("00:00:03 | [failed] text".to_string(), Tint::LightRed),
            ("           lost".to_string(), Tint::Red),
        ]
    );
}

#[test]
fn empty_and_repeated_drafts_are_passed_over() {
    let mut pane = SourcePane::default();
    assert!(!pane.update_draft("a".into(), String::new(), 0));
    assert!(pane.update_draft("a".into(), "x".into(), 5));
    assert!(!pane.update_draft("a".into(), "x".into(), 1));
    assert_eq!(pane.turns[0].started_at, 5);
    assert!(pane.update_draft("a".into(), "xy".into(), 1));
    assert_eq!(pane.turns[0].started_at, 1);
}

#[test]
fn the_oldest_turn_makes_room() {
    let mut pane = SourcePane::default();
    for i in 0..MAX_TURNS_PER_SOURCE + 1 {
        pane.update_draft(format!("turn-{i}"), "x".into(), 0);
    }
    assert_eq!(pane.turns.len(), MAX_TURNS_PER_SOURCE);
    assert_eq!(pane.turns[0].turn_id, "turn-1");
}

#[test]
fn layouts_follow_the_pane() {
    let mut pane = SourcePane::default();
    pane.update_draft("a".into(), "abcdefgh".into(), 0);
    let layout = pane.layout_for(20, 1);
    assert_eq!(layout.lines.len(), 2);
    assert_eq!(layout.lines[0].text, "00:00:00 | [draft] a");
    assert_eq!(layout.scroll, 1);
    assert_eq!(pane.layout_for(40, 5).lines.len(), 1);
    pane.mark_final("a", "z".into(), DisplayAction::NewBlock);
    let layout = pane.layout_for(40, 5);
    assert_eq!(layout.lines[0].text, "00:00:00 | z");
    assert_eq!(layout.scroll, 0);
    assert_eq!(compute_scroll(10, 4), 6);
    assert_eq!(compute_scroll(3, 4), 0);
}

#[test]
fn events_reach_their_own_pane() {
    let mut app = App::new(
        "m".into(),
        "lang".into(),
        vec![SourceKind::Microphone, SourceKind::SystemAudio],
        1_000,
    );
    assert!(app.apply(AppEvent::DraftTranscript {
        source: SourceKind::SystemAudio,
        turn_id: "t".into(),
        at: 1_000 + 7 * SECOND as i128,
        text: "你 好".into(),
    }));
    let mine = app.panes.get_mut(SourceKind::Microphone).expect("a pane");
    assert!(mine.turns.is_empty());
    assert_eq!(mine.draft_status, "starting");
    let other = app.panes.get_mut(SourceKind::SystemAudio).expect("a pane");
    assert_eq!(other.turns[0].draft_text, "你好");
    assert_eq!(other.turns[0].started_at, 7 * SECOND);
}

#[test]
fn events_of_hidden_sources_are_passed_over() {
    let mut app = app();
    assert!(!app.apply(AppEvent::DraftStatus {
        source: SourceKind::SystemAudio,
        status: "listening".into(),
    }));
    assert!(app.panes.get_mut(SourceKind::SystemAudio).is_none());
}

#[test]
fn notices_are_kept_up_to_a_number() {
    let mut app = app();
    assert_eq!(app.latest_notice(), "ready");
    for i in 0..MAX_NOTICES + 2 {
        assert!(app.apply(AppEvent::Notice(format!("notice {i}"))));
    }
    assert_eq!(app.notices.len(), MAX_NOTICES);
    assert_eq!(app.notices[0], "notice 2");
    assert_eq!(app.latest_notice(), "notice 9");
    assert!(app.apply(AppEvent::SourceError {
        source: SourceKind::Microphone,
        error: "gone".into(),
    }));
    assert_eq!(app.latest_notice(), "microphone: gone");
}

#[test]
fn the_screen_names_model_and_profile() {
    let app = app();
    assert_eq!(app.status_text(), "model: model | capture: 16 kHz mono | q: quit");
    assert_eq!(app.controls_text(), "q quit | lang: zh-Hant");
}

#[test]
fn ui_events_draw_and_quit() {
    let mut app = app();
    let (mut draw, mut quit) = (false, false);
    let status = |status: &str| AppEvent::DraftStatus {
        source: SourceKind::Microphone,
        status: status.to_string(),
    };
    handle_ui_event(&mut app, status("starting"), &mut draw, &mut quit);
    assert!(!draw);
    handle_ui_event(&mut app, status("listening"), &mut draw, &mut quit);
    assert!(draw && !quit);
    draw = false;
    handle_ui_event(&mut app, AppEvent::Redraw, &mut draw, &mut quit);
    assert!(draw && !quit);
    handle_ui_event(&mut app, AppEvent::Quit, &mut draw, &mut quit);
    assert!(quit);
}

#[test]
fn usage_counts_are_merged() {
    let mut pane = SourcePane::default();
    let usage = |prompt: u32, total: u32| UsageSnapshot {
        prompt_token_count: prompt,
        cached_content_token_count: 0,
        response_token_count: 0,
        tool_use_prompt_token_count: 0,
        thoughts_token_count: 0,
        total_token_count: total,
    };
    assert!(pane.set_usage(usage(10, 0)));
    assert!(pane.set_usage(usage(0, 5)));
    assert!(!pane.set_usage(usage(10, 5)));
    assert_eq!(pane.usage, Some(usage(10, 5)));
}

#[test]
fn levels_and_queues_change_once() {
    let mut pane = SourcePane::default();
    assert!(pane.set_capture_rms(12));
    assert!(!pane.set_capture_rms(12));
    assert!(pane.set_queue_metrics(1, Seconds::of_nanos(SECOND)));
    assert!(!pane.set_queue_metrics(1, Seconds::of_nanos(SECOND + 50)));
    assert!(pane.set_queue_metrics(1, Seconds::of_nanos(SECOND + 100)));
}

#[test]
fn borders_take_a_cell_on_each_side() {
    assert_eq!(
        inner_rect(Area { x: 1, y: 2, width: 10, height: 1 }),
        Area { x: 2, y: 3, width: 8, height: 0 }
    );
}

#[test]
fn terminal_input_quits_and_redraws() {
    let key = |character: char, pressed: bool| {
        handle_terminal_input(TerminalInput::Key { character, pressed })
    };
    assert!(matches!(key('q', true), (Some(AppEvent::Quit), true)));
    assert!(matches!(key('q', false), (None, false)));
    assert!(matches!(key('x', true), (None, false)));
    assert!(matches!(
        handle_terminal_input(TerminalInput::Resize),
        (Some(AppEvent::Redraw), false)
    ));
    assert!(matches!(handle_terminal_input(TerminalInput::Other), (None, false)));
    assert!(matches!(
        handle_terminal_input(TerminalInput::ReadFailed("x".into())),
        (Some(AppEvent::Notice(text)), true) if text == "terminal input error: x"
    ));
    assert!(matches!(
        handle_terminal_input(TerminalInput::PollFailed("x".into())),
        (Some(AppEvent::Notice(text)), true) if text == "terminal poll error: x"
    ));
}
