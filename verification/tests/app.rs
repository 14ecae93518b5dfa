use rubin_love_tui::app::{
    App, BackendError, Badge, BadgeColor, InputEvent, KeyCode, KeyEvent, KeyEventKind, Received,
};
use rubin_love_tui::queue_data::love_payload::{
    AvailableScripts, LoveData, LoveDataType, LovePayload, LoveTracing, Script, ScriptInfo,
    ScriptStream, StateStream,
};

fn script(kind: &str, path: &str) -> Script {
    Script { script_type: kind.to_string(), path: path.to_string(), config_schema: String::new() }
}

fn info(index: u32, path: &str, process_state: &str, script_state: &str) -> ScriptInfo {
    ScriptInfo {
        remote: None,
        setup: false,
        index,
        path: path.to_string(),
        script_type: "standard".to_string(),
        process_state: process_state.to_string(),
        script_state: script_state.to_string(),
        timestamp_configure_end_bits: 0,
        timestamp_configure_start_bits: 0,
        timestamp_process_end_bits: 12.5f64.to_bits(),
        timestamp_process_start_bits: 0,
        timestamp_run_start_bits: 2.5f64.to_bits(),
        expected_duration_bits: 30.0f64.to_bits(),
        last_checkpoint: String::new(),
        description: String::new(),
        classname: String::new(),
        remotes: String::new(),
        last_heartbeat_timestamp_bits: 0,
        lost_heartbeats: 0,
        pause_checkpoints: String::new(),
        stop_checkpoints: String::new(),
        log_level: 0,
    }
}

fn payload(d: LoveDataType) -> LovePayload {
    LovePayload {
        category: "event".to_string(),
        data: vec![LoveData { csc: "ScriptQueueState".to_string(), salindex: 3, data: d }],
        subscription: String::new(),
        tracing: LoveTracing {
            producer_snd_bits: 0,
            manager_rcv_from_producer_bits: 0,
            manager_snd_to_group_bits: 0,
            manager_rcv_from_group_bits: 0,
            manager_snd_to_client_bits: 0,
        },
    }
}

fn empty_data() -> LoveDataType {
    LoveDataType { script_stream: None, state_stream: None, available_scripts_stream: None }
}

fn scripts_payload(v: Vec<Script>) -> LovePayload {
    payload(LoveDataType {
        available_scripts_stream: Some(AvailableScripts { available_scripts: v }),
        ..empty_data()
    })
}

fn press(app: &mut App, code: KeyCode) {
    app.handle_key_event(KeyEvent { code, kind: KeyEventKind::Press });
}

fn key(c: char) -> KeyCode {
    KeyCode::Char(c)
}

fn lines(app: &App) -> Vec<String> {
    app.get_available_scripts().lines
}

fn browser_app() -> App {
    let mut app = App::new();
    let p = scripts_payload(vec![
        script("standard", "auxtel/a.py"),
        script("standard", "auxtel/b.py"),
        script("standard", "maintel/c.py"),
        script("external", "ext/x.py"),
        script("standard", "run.py"),
    ]);
    app.receive(Received::Payload(p)).unwrap();
    app
}

#[test]
fn new_app_shows_nothing_yet() {
    let app = App::default();
    assert!(!app.should_exit());
    assert!(lines(&app).is_empty());
    assert_eq!(app.get_visible_scripts(), vec!["Standard Scripts >>", "External Scripts >>"]);
    let state = app.get_state();
    assert_eq!(state.title, "State (never updated) [0]:");
    assert_eq!(state.summary_state, Badge::Unknown);
    assert_eq!(state.queue_state, Badge::Unknown);
    assert_eq!(state.selected_panel, "Selected Panel:  None");
    assert_eq!(app.get_available_scripts().title, "Available Scripts: None");
    assert_eq!(app.counter_text(), "0");
}

#[test]
fn counter_wraps_both_ways() {
    let mut app = App::new();
    app.decrement_counter();
    assert_eq!(app.counter_text(), "255");
    app.increment_counter();
    assert_eq!(app.counter_text(), "0");
    press(&mut app, KeyCode::Right);
    press(&mut app, KeyCode::Right);
    assert_eq!(app.counter_text(), "2");
    press(&mut app, KeyCode::Left);
    assert_eq!(app.counter_text(), "1");
}

#[test]
fn counter_round_trip_restores_value() {
    let mut app = App::new();
    for _ in 0..77 {
        app.increment_counter();
    }
    app.increment_counter();
    app.decrement_counter();
    assert_eq!(app.counter_text(), "77");
    app.decrement_counter();
    app.increment_counter();
    assert_eq!(app.counter_text(), "77");
}

#[test]
fn idle_polls_count_in_the_state_title() {
    let mut app = App::new();
    for _ in 0..12 {
        assert_eq!(app.receive(Received::Empty), Ok(()));
    }
    assert_eq!(app.get_state().title, "State (never updated) [12]:");
}

#[test]
fn disconnected_backend_is_an_error_and_changes_nothing() {
    let mut app = App::new();
    app.increment_counter();
    let r = app.receive(Received::Disconnected);
    assert_eq!(r, Err(BackendError::Disconnected));
    assert_eq!(BackendError::Disconnected.message(), "Error communicating with the backend.");
    assert_eq!(app.counter_text(), "1");
}

#[test]
fn state_message_updates_state_panel_and_resets_counter() {
    let mut app = App::new();
    app.increment_counter();
    let p = payload(LoveDataType {
        state_stream: Some(StateStream { enabled: false, running: true }),
        ..empty_data()
    });
    app.receive(Received::Payload(p)).unwrap();
    assert_eq!(app.counter_text(), "0");
    let state = app.get_state();
    assert_eq!(state.title, "State (updated) \u{1F494} \u{2764}\u{FE0F}:");
    assert_eq!(state.summary_state, Badge::Disabled);
    assert_eq!(state.queue_state, Badge::Running);
    assert_eq!(state.summary_state.label(), "  DISABLED ");
    assert_eq!(state.summary_state.color(), BadgeColor::Blue);
    assert_eq!(state.queue_state.label(), "  RUNNING  ");
    assert_eq!(state.queue_state.color(), BadgeColor::Green);
}

#[test]
fn badges_have_their_labels_and_colors() {
    assert_eq!(Badge::Enabled.label(), "  ENABLED  ");
    assert_eq!(Badge::Enabled.color(), BadgeColor::Green);
    assert_eq!(Badge::Stopped.label(), "  STOPPED  ");
    assert_eq!(Badge::Stopped.color(), BadgeColor::Yellow);
    assert_eq!(Badge::Unknown.label(), " Unknown ");
    assert_eq!(Badge::Unknown.color(), BadgeColor::Gray);
}

#[test]
fn focus_keys_only_act_without_focus_and_escape_clears() {
    let mut app = App::new();
    press(&mut app, key('w'));
    assert_eq!(app.get_state().selected_panel, "Selected Panel:  WaitingScripts");
    press(&mut app, key('a'));
    assert_eq!(app.get_state().selected_panel, "Selected Panel:  WaitingScripts");
    press(&mut app, KeyCode::Esc);
    assert_eq!(app.get_state().selected_panel, "Selected Panel:  None");
    for (c, name) in [('a', "AvailableScripts"), ('s', "State"), ('c', "CurrentScripts"), ('d', "DoneScripts")] {
        press(&mut app, key(c));
        assert_eq!(app.get_state().selected_panel, format!("Selected Panel:  {name}"));
        press(&mut app, KeyCode::Esc);
        assert_eq!(app.get_state().selected_panel, "Selected Panel:  None");
    }
}

#[test]
fn quit_key_and_non_press_events() {
    let mut app = App::new();
    app.handle_input(InputEvent::Key(KeyEvent { code: key('q'), kind: KeyEventKind::Release }));
    assert!(!app.should_exit());
    app.handle_input(InputEvent::Other);
    assert!(!app.should_exit());
    app.handle_input(InputEvent::Key(KeyEvent { code: key('q'), kind: KeyEventKind::Press }));
    assert!(app.should_exit());
    press(&mut app, KeyCode::Esc);
    app.receive(Received::Empty).unwrap();
    assert!(app.should_exit());
}

#[test]
fn other_keys_change_nothing() {
    let mut app = browser_app();
    press(&mut app, key('x'));
    press(&mut app, KeyCode::Other);
    press(&mut app, KeyCode::Enter);
    assert_eq!(app.get_state().selected_panel, "Selected Panel:  None");
    assert_eq!(app.get_available_scripts().title, "Available Scripts: None");
    assert_eq!(app.counter_text(), "0");
}

#[test]
fn browsing_standard_scripts_and_back() {
    let mut app = browser_app();
    assert_eq!(lines(&app), vec!["Standard Scripts >>", "External Scripts >>"]);
    press(&mut app, key('a'));
    assert_eq!(app.get_available_scripts().highlighted, Some(0));
    press(&mut app, KeyCode::Enter);
    assert_eq!(app.get_available_scripts().title, "Available Scripts: Standard(\"\")");
    assert_eq!(lines(&app), vec![" << ", " - auxtel >>", " - maintel >>", " - run.py"]);
    press(&mut app, KeyCode::Down);
    assert_eq!(app.get_available_scripts().highlighted, Some(1));
    assert_eq!(app.get_available_scripts().scroll, 1);
    press(&mut app, KeyCode::Enter);
    assert_eq!(app.get_available_scripts().title, "Available Scripts: Standard(\"auxtel/\")");
    assert_eq!(lines(&app), vec![" << ", " - a.py", " - b.py"]);
    assert_eq!(app.get_available_scripts().highlighted, Some(0));
    press(&mut app, KeyCode::Enter);
    assert_eq!(app.get_available_scripts().title, "Available Scripts: Standard(\"\")");
    press(&mut app, KeyCode::Enter);
    assert_eq!(app.get_available_scripts().title, "Available Scripts: None");
    assert_eq!(lines(&app), vec!["Standard Scripts >>", "External Scripts >>"]);
}

#[test]
fn entering_a_script_line_stays_in_the_directory() {
    let mut app = browser_app();
    press(&mut app, key('a'));
    press(&mut app, KeyCode::Enter);
    press(&mut app, key('j'));
    press(&mut app, key('j'));
    press(&mut app, key('j'));
    assert_eq!(app.get_available_scripts().highlighted, Some(3));
    press(&mut app, KeyCode::Enter);
    assert_eq!(app.get_available_scripts().title, "Available Scripts: Standard(\"\")");
    assert_eq!(app.get_available_scripts().highlighted, Some(0));
}

#[test]
fn external_browser_does_not_move() {
    let mut app = browser_app();
    press(&mut app, key('a'));
    press(&mut app, KeyCode::Down);
    press(&mut app, KeyCode::Enter);
    assert_eq!(app.get_available_scripts().title, "Available Scripts: External(\"\")");
    assert_eq!(lines(&app), vec![" <<  ", " - ext >>"]);
    press(&mut app, KeyCode::Down);
    press(&mut app, KeyCode::Enter);
    assert_eq!(app.get_available_scripts().title, "Available Scripts: External(\"\")");
    assert_eq!(app.get_available_scripts().highlighted, Some(1));
}

#[test]
fn cursor_wraps_past_the_number_of_scripts() {
    let mut app = browser_app();
    press(&mut app, key('a'));
    for _ in 0..5 {
        press(&mut app, KeyCode::Down);
    }
    assert_eq!(app.get_available_scripts().scroll, 5);
    assert_eq!(app.get_available_scripts().highlighted, None);
    assert!(app.can_handle_enter());
    press(&mut app, KeyCode::Down);
    assert_eq!(app.get_available_scripts().scroll, 0);
    press(&mut app, KeyCode::Up);
    assert_eq!(app.get_available_scripts().scroll, 0);
    press(&mut app, KeyCode::Down);
    press(&mut app, KeyCode::Down);
    press(&mut app, key('k'));
    assert_eq!(app.get_available_scripts().scroll, 1);
}

#[test]
fn cursor_moves_only_in_the_available_scripts_panel() {
    let mut app = browser_app();
    press(&mut app, KeyCode::Down);
    assert_eq!(app.get_available_scripts().scroll, 0);
    press(&mut app, key('s'));
    press(&mut app, KeyCode::Down);
    assert_eq!(app.get_available_scripts().scroll, 0);
    assert_eq!(app.get_available_scripts().highlighted, None);
}

#[test]
fn enter_past_the_last_line_is_refused() {
    let mut app = browser_app();
    press(&mut app, key('a'));
    press(&mut app, KeyCode::Enter);
    for _ in 0..4 {
        press(&mut app, KeyCode::Down);
    }
    assert_eq!(lines(&app).len(), 4);
    assert!(!app.can_handle_enter());
    press(&mut app, KeyCode::Up);
    assert!(app.can_handle_enter());
}

#[test]
fn only_adjacent_duplicate_lines_merge() {
    let mut app = App::new();
    app.receive(Received::Payload(scripts_payload(vec![
        script("standard", "a/x.py"),
        script("standard", "b/y.py"),
        script("standard", "a/z.py"),
        script("standard", "a/w.py"),
    ])))
    .unwrap();
    press(&mut app, key('a'));
    press(&mut app, KeyCode::Enter);
    assert_eq!(lines(&app), vec![" << ", " - a >>", " - b >>", " - a >>"]);
}

#[test]
fn directory_names_lose_their_separators() {
    let mut app = App::new();
    app.receive(Received::Payload(scripts_payload(vec![script("standard", "a - b/c.py")]))).unwrap();
    press(&mut app, key('a'));
    press(&mut app, KeyCode::Enter);
    assert_eq!(lines(&app), vec![" << ", " - a - b >>"]);
    press(&mut app, KeyCode::Down);
    press(&mut app, KeyCode::Enter);
    assert_eq!(app.get_available_scripts().title, "Available Scripts: Standard(\"ab/\")");
    assert_eq!(lines(&app), vec![" << "]);
}

#[test]
fn title_escapes_quotes_in_paths() {
    let mut app = App::new();
    app.receive(Received::Payload(scripts_payload(vec![script("standard", "q\"d/s.py")]))).unwrap();
    press(&mut app, key('a'));
    press(&mut app, KeyCode::Enter);
    press(&mut app, KeyCode::Down);
    press(&mut app, KeyCode::Enter);
    assert_eq!(app.get_available_scripts().title, "Available Scripts: Standard(\"q\\\"d/\")");
    assert_eq!(lines(&app), vec![" << ", " - s.py"]);
}

#[test]
fn new_scripts_refresh_the_lines_where_the_browser_stands() {
    let mut app = browser_app();
    press(&mut app, key('a'));
    press(&mut app, KeyCode::Enter);
    app.receive(Received::Payload(scripts_payload(vec![script("standard", "z.py")]))).unwrap();
    assert_eq!(lines(&app), vec![" << ", " - z.py"]);
}

#[test]
fn queue_panels_list_scripts() {
    let mut app = App::new();
    assert!(app.get_waiting_scripts().lines.is_empty());
    assert!(app.get_running_scripts().scripts.is_empty());
    let stream = ScriptStream {
        current_scripts: vec![info(100001, "maintel/track.py", "RUNNING", "RUNNING")],
        waiting_scripts: vec![info(8, "b.py", "CONFIGURED", "UNCONFIGURED"), info(9, "c.py", "LOADING", "UNKNOWN")],
        finished_scripts: vec![info(5, "x.py", "DONE", "FAILED")],
    };
    app.receive(Received::Payload(payload(LoveDataType { script_stream: Some(stream), ..empty_data() }))).unwrap();
    let waiting = app.get_waiting_scripts();
    assert_eq!(waiting.title, "Waiting Scripts");
    assert_eq!(waiting.lines, vec![" [8-CONFIGURED] b.py", " [9-LOADING] c.py"]);
    assert_eq!(waiting.scroll, 0);
    assert_eq!(waiting.highlighted, None);
    let done = app.get_done_scripts();
    assert_eq!(done.title, "Done Scripts");
    assert_eq!(done.lines, vec![" [5-DONE-FAILED]:x.py"]);
    let running = app.get_running_scripts();
    assert_eq!(running.title, "Current Scripts");
    assert_eq!(running.scripts.len(), 1);
    assert_eq!(running.scripts[0].header, " [100001-RUNNING] maintel/track.py");
    assert_eq!(f64::from_bits(running.scripts[0].expected_duration_bits), 30.0);
    assert_eq!(f64::from_bits(running.scripts[0].timestamp_process_end_bits), 12.5);
    assert_eq!(f64::from_bits(running.scripts[0].timestamp_run_start_bits), 2.5);
    assert_eq!(app.get_state().title, "State (updated) \u{1F494} \u{2764}\u{FE0F}:");
}

#[test]
fn moving_down_then_up_restores_the_position() {
    let mut app = browser_app();
    press(&mut app, key('a'));
    press(&mut app, KeyCode::Down);
    press(&mut app, KeyCode::Down);
    assert_eq!(app.get_available_scripts().scroll, 2);
    press(&mut app, KeyCode::Down);
    press(&mut app, KeyCode::Up);
    assert_eq!(app.get_available_scripts().scroll, 2);
    press(&mut app, KeyCode::Up);
    press(&mut app, KeyCode::Down);
    assert_eq!(app.get_available_scripts().scroll, 2);
    assert_eq!(app.get_available_scripts().highlighted, None);
}

#[test]
fn updated_title_stays_after_messages_without_streams() {
    let mut app = App::new();
    let p = payload(LoveDataType {
        state_stream: Some(StateStream { enabled: true, running: true }),
        ..empty_data()
    });
    app.receive(Received::Payload(p)).unwrap();
    app.receive(Received::Payload(payload(empty_data()))).unwrap();
    app.receive(Received::Empty).unwrap();
    let state = app.get_state();
    assert_eq!(state.title, "State (updated) \u{1F494} \u{2764}\u{FE0F}:");
    assert_eq!(state.summary_state, Badge::Enabled);
    assert_eq!(state.queue_state, Badge::Running);
    assert_eq!(app.counter_text(), "1");
}

#[test]
fn state_panel_lines_have_their_labels_and_black_text() {
    let app = App::new();
    let state = app.get_state();
    assert_eq!(state.summary_label, "SummaryState: ");
    assert_eq!(state.queue_label, "Queue State:  ");
    for b in [Badge::Running, Badge::Stopped, Badge::Enabled, Badge::Disabled, Badge::Unknown] {
        assert_eq!(b.foreground(), BadgeColor::Black);
    }
}

#[test]
fn letter_keys_and_arrows_do_the_same() {
    let mut by_letters = browser_app();
    let mut by_arrows = browser_app();
    press(&mut by_letters, key('a'));
    press(&mut by_arrows, key('a'));
    for (letter, arrow) in [(key('j'), KeyCode::Down), (key('j'), KeyCode::Down), (key('k'), KeyCode::Up)] {
        press(&mut by_letters, letter);
        press(&mut by_arrows, arrow);
        assert_eq!(by_letters.get_available_scripts().scroll, by_arrows.get_available_scripts().scroll);
    }
    assert_eq!(by_letters.get_available_scripts().scroll, 1);
    let mut direct = browser_app();
    direct.handle_input(InputEvent::Key(KeyEvent { code: KeyCode::Right, kind: KeyEventKind::Repeat }));
    assert_eq!(direct.counter_text(), "0");
    direct.handle_input(InputEvent::Key(KeyEvent { code: KeyCode::Right, kind: KeyEventKind::Press }));
    let mut called = browser_app();
    called.increment_counter();
    assert_eq!(direct.counter_text(), called.counter_text());
}
