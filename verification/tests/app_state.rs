use radioboat::app::{needs_stations, App, Failure, Key, KeyAction};
use radioboat::message::{saturate_u64, Clock, Message};
use radioboat::station::{Import, Station};

fn st(name: &str, url: &str) -> Station {
    Station { name: name.to_string(), url: url.to_string(), is_remote: false, source: "local".to_string() }
}

fn five() -> App {
    let local = vec![st("A", "a"), st("B", "b"), st("C", "c"), st("D", "d"), st("E", "e")];
    App::new(local, vec![], vec![], vec![], 0)
}

fn contents(app: &App) -> Vec<(String, bool)> {
    app.messages().iter().map(|m| (m.content().to_string(), m.is_error())).collect()
}

#[test]
fn new_app_state() {
    let app = App::new(vec![st("b", "1")], vec![st("a", "2")], vec![], vec!["oops".to_string()], 0);
    assert_eq!(app.cursor(), 0);
    assert_eq!(app.playing_index(), None);
    assert!(!app.show_help());
    assert!(!app.has_imports());
    assert!(!app.is_refreshing());
    let names: Vec<&str> = app.stations().iter().map(|s| s.name.as_str()).collect();
    assert_eq!(names, vec!["a", "b"]);
    assert_eq!(contents(&app), vec![("oops".to_string(), true)]);
}

#[test]
fn moving_down_wraps_to_first() {
    let mut app = five();
    for expected in [1, 2, 3, 4, 0] {
        assert_eq!(app.handle_key(Key::Down), KeyAction::Continue);
        assert_eq!(app.cursor(), expected);
    }
    app.handle_key(Key::Char('j'));
    assert_eq!(app.cursor(), 1);
}

#[test]
fn moving_up_wraps_to_last() {
    let mut app = five();
    app.handle_key(Key::Up);
    assert_eq!(app.cursor(), 4);
    app.handle_key(Key::Char('k'));
    assert_eq!(app.cursor(), 3);
}

#[test]
fn down_then_up_returns() {
    let mut app = five();
    for _ in 0..7 {
        let before = app.cursor();
        app.handle_key(Key::Down);
        app.handle_key(Key::Up);
        assert_eq!(app.cursor(), before);
        app.handle_key(Key::Down);
    }
}

#[test]
fn page_moves() {
    let mut app = five();
    app.resize(80, 8);
    assert_eq!(app.page_height(), 2);
    app.handle_key(Key::Right);
    assert_eq!(app.cursor(), 2);
    app.handle_key(Key::Char('l'));
    assert_eq!(app.cursor(), 4);
    app.handle_key(Key::Right);
    assert_eq!(app.cursor(), 4);
    app.handle_key(Key::Left);
    assert_eq!(app.cursor(), 2);
    app.handle_key(Key::Char('h'));
    assert_eq!(app.cursor(), 0);
    app.handle_key(Key::Left);
    assert_eq!(app.cursor(), 0);
}

#[test]
fn page_height_is_at_least_one() {
    let mut app = five();
    assert_eq!(app.page_height(), 1);
    app.resize(10, 3);
    assert_eq!(app.page_height(), 1);
    app.resize(10, 30);
    assert_eq!(app.page_height(), 24);
}

#[test]
fn left_on_empty_list_is_harmless() {
    let mut app = App::new(vec![], vec![], vec![], vec![], 0);
    assert_eq!(app.handle_key(Key::Left), KeyAction::Continue);
    assert_eq!(app.cursor(), 0);
    assert!(needs_stations(Key::Down));
    assert!(!needs_stations(Key::Left));
    assert!(!needs_stations(Key::Enter));
}

#[test]
fn key_actions() {
    let mut app = five();
    assert_eq!(app.handle_key(Key::Char('q')), KeyAction::Quit);
    assert_eq!(app.handle_key(Key::Esc), KeyAction::Quit);
    assert_eq!(app.handle_key(Key::Char('m')), KeyAction::ToggleMute);
    assert_eq!(app.handle_key(Key::Enter), KeyAction::PlayCurrent);
    assert_eq!(app.handle_key(Key::Char('+')), KeyAction::VolumeUp);
    assert_eq!(app.handle_key(Key::Char('*')), KeyAction::VolumeUp);
    assert_eq!(app.handle_key(Key::Char('-')), KeyAction::VolumeDown);
    assert_eq!(app.handle_key(Key::Char('/')), KeyAction::VolumeDown);
    assert_eq!(app.handle_key(Key::Char('y')), KeyAction::CopyTrack);
    assert_eq!(app.handle_key(Key::Char('r')), KeyAction::Continue);
    assert!(!app.is_refreshing());
    assert_eq!(app.handle_key(Key::Char('x')), KeyAction::Continue);
    assert_eq!(app.handle_key(Key::Other), KeyAction::Continue);
    assert_eq!(app.cursor(), 0);
}

#[test]
fn help_overlay() {
    let mut app = five();
    app.handle_key(Key::Char('?'));
    assert!(app.show_help());
    assert_eq!(app.handle_key(Key::Char('q')), KeyAction::Continue);
    assert_eq!(app.handle_key(Key::Down), KeyAction::Continue);
    assert_eq!(app.cursor(), 0);
    assert!(app.show_help());
    app.handle_key(Key::Char('h'));
    assert!(!app.show_help());
    app.handle_key(Key::Char('?'));
    app.handle_key(Key::Esc);
    assert!(!app.show_help());
}

#[test]
fn refresh_cycle() {
    let imports = vec![Import { name: "web".to_string(), url: "http://x".to_string() }];
    let mut app = App::new(vec![st("A", "a")], vec![st("B", "b"), st("C", "c")], imports, vec![], 0);
    assert!(app.has_imports());
    app.handle_key(Key::Down);
    app.handle_key(Key::Down);
    assert_eq!(app.cursor(), 2);
    app.mark_playing();
    assert_eq!(app.playing_index(), Some(2));
    assert_eq!(app.handle_key(Key::Char('r')), KeyAction::Refresh);
    assert!(app.is_refreshing());
    assert_eq!(app.imports().len(), 1);
    app.finish_refresh(vec![], vec![], 10);
    assert!(!app.is_refreshing());
    assert_eq!(app.stations().len(), 1);
    assert_eq!(app.cursor(), 0);
    assert_eq!(app.playing_index(), None);
    assert_eq!(contents(&app), vec![("Remote station lists refreshed".to_string(), false)]);
}

#[test]
fn refresh_with_errors() {
    let imports = vec![Import { name: "web".to_string(), url: "http://x".to_string() }];
    let mut app = App::new(vec![st("A", "a")], vec![], imports, vec![], 0);
    app.handle_key(Key::Char('r'));
    app.finish_refresh(vec![st("Z", "z")], vec!["e1".to_string(), "e2".to_string()], 10);
    assert_eq!(contents(&app), vec![("e1".to_string(), true), ("e2".to_string(), true)]);
    assert_eq!(app.stations().len(), 2);
}

#[test]
fn refresh_keeps_valid_cursor_and_playing_station() {
    let imports = vec![Import { name: "web".to_string(), url: "http://x".to_string() }];
    let mut app = App::new(vec![st("A", "a")], vec![st("B", "b")], imports, vec![], 0);
    app.mark_playing();
    app.handle_key(Key::Down);
    app.finish_refresh(vec![st("B", "b"), st("C", "c")], vec![], 10);
    assert_eq!(app.cursor(), 1);
    assert_eq!(app.playing_index(), Some(0));
}

#[test]
fn refresh_to_empty_list() {
    let imports = vec![Import { name: "web".to_string(), url: "http://x".to_string() }];
    let mut app = App::new(vec![], vec![st("B", "b"), st("C", "c")], imports, vec![], 0);
    app.handle_key(Key::Down);
    app.mark_playing();
    app.finish_refresh(vec![], vec![], 10);
    assert!(app.stations().is_empty());
    assert_eq!(app.playing_index(), None);
    assert_eq!(app.cursor(), 1);
}

#[test]
fn current_station_and_playing() {
    let mut app = five();
    app.handle_key(Key::Down);
    assert_eq!(app.current_station().url, "b");
    app.mark_playing();
    assert_eq!(app.playing_index(), Some(1));
    app.mark_stopped();
    assert_eq!(app.playing_index(), None);
}

#[test]
fn failures_are_reported() {
    let mut app = five();
    app.report_failure(Failure::Mute, "socket closed", 10);
    app.report_failure(Failure::VolumeUp, "x", 10);
    app.report_failure(Failure::VolumeDown, "y", 10);
    assert_eq!(
        contents(&app),
        vec![
            ("Mute failed: socket closed".to_string(), true),
            ("Volume up failed: x".to_string(), true),
            ("Volume down failed: y".to_string(), true),
        ]
    );
}

#[test]
fn copying_the_track() {
    let mut app = five();
    assert!(!app.begin_copy("", true, 10));
    assert!(!app.begin_copy("Song", false, 10));
    assert!(app.begin_copy("Song", true, 10));
    app.end_copy("Song", None, 10);
    app.end_copy("Song", Some("denied".to_string()), 10);
    assert_eq!(
        contents(&app),
        vec![
            ("No song currently playing".to_string(), true),
            ("Clipboard not available".to_string(), true),
            ("Copied: Song".to_string(), false),
            ("Copy failed: denied".to_string(), true),
        ]
    );
}

#[test]
fn selecting_by_url() {
    let mut app = five();
    assert!(app.select_url("d"));
    assert_eq!(app.cursor(), 3);
    assert!(!app.select_url("zzz"));
    assert_eq!(app.cursor(), 3);
}

#[test]
fn next_and_previous_station() {
    let mut app = five();
    assert!(app.step_previous());
    assert_eq!(app.cursor(), 4);
    assert!(app.step_next());
    assert_eq!(app.cursor(), 0);
    assert!(app.step_next());
    assert_eq!(app.cursor(), 1);
    let mut empty = App::new(vec![], vec![], vec![], vec![], 0);
    assert!(!empty.step_next());
    assert!(!empty.step_previous());
}

#[test]
fn fresh_messages_survive_a_tick() {
    let mut app = App::new(vec![st("A", "a")], vec![], vec![], vec!["e".to_string()], 0);
    app.tick(10);
    assert_eq!(app.messages().len(), 1);
}

#[test]
fn messages_expire_after_five_seconds() {
    let mut app = App::new(vec![st("A", "a")], vec![], vec![], vec!["first".to_string()], 1_000_000_000);
    app.report_failure(Failure::Mute, "later", 3_000_000_000);
    app.tick(5_999_999_999);
    assert_eq!(contents(&app), vec![("first".to_string(), true), ("Mute failed: later".to_string(), true)]);
    app.tick(6_000_000_000);
    assert_eq!(contents(&app), vec![("Mute failed: later".to_string(), true)]);
    app.tick(7_999_999_999);
    assert_eq!(app.messages().len(), 1);
    app.tick(8_000_000_000);
    assert!(app.messages().is_empty());
}

#[test]
fn message_liveness() {
    let m = Message::info("x".to_string(), 1_000_000_000);
    assert!(m.is_live_at(0));
    assert!(m.is_live_at(5_999_999_999));
    assert!(!m.is_live_at(6_000_000_000));
    let late = Message::error("y".to_string(), u64::MAX);
    assert!(late.is_live_at(u64::MAX));
}

#[test]
fn clock_readings_do_not_go_back() {
    let clock = Clock::start();
    let a = clock.now_ns();
    let b = clock.now_ns();
    assert!(a <= b);
    assert_eq!(saturate_u64(7), 7);
    assert_eq!(saturate_u64(u128::MAX), u64::MAX);
}

#[test]
fn message_kinds() {
    let i = Message::info("hello".to_string(), 0);
    let e = Message::error("bad".to_string(), 0);
    assert_eq!(i.content(), "hello");
    assert!(!i.is_error());
    assert_eq!(e.content(), "bad");
    assert!(e.is_error());
}
