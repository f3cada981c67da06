use radioboat::layout::{remote_mark, row_emphasis, row_prefix, RowEmphasis};
use radioboat::cli::{choose_editor, nothing_configured, nothing_to_play};
use radioboat::icy::IcyMetadata;
use radioboat::layout::{
    compact_height, header_columns, header_row, Area, help_popup_area, list_rows, message_panel_height, scroll_offset, shortcuts,
    station_label, volume_label,
};
use radioboat::player::PlayerState;
use radioboat::session::{MacOsMediaState, MediaSession, PlayPause};
use radioboat::text::{chars_of, decimal_text, lowercase_chars, parse_u32, text_less};

#[test]
fn scrolling_keeps_cursor_in_view() {
    assert_eq!(scroll_offset(0, 5, 20), 0);
    assert_eq!(scroll_offset(4, 5, 20), 0);
    assert_eq!(scroll_offset(5, 5, 20), 3);
    assert_eq!(scroll_offset(19, 5, 20), 15);
    assert_eq!(scroll_offset(3, 3, 4), 1);
    for len in 1..30usize {
        for page in 1..10usize {
            for cursor in 0..len {
                let off = scroll_offset(cursor, page, len);
                assert!(off <= cursor && cursor < off + page);
            }
        }
    }
}

#[test]
fn panel_and_popup_sizes() {
    assert_eq!(list_rows(10), 8);
    assert_eq!(list_rows(1), 0);
    assert_eq!(message_panel_height(0, false), 0);
    assert_eq!(message_panel_height(0, true), 3);
    assert_eq!(message_panel_height(2, true), 5);
    let a = help_popup_area(100, 40, true);
    assert_eq!((a.x, a.y, a.width, a.height), (17, 10, 65, 20));
    let b = help_popup_area(50, 10, false);
    assert_eq!((b.x, b.y, b.width, b.height), (0, 0, 50, 10));
    assert_eq!(help_popup_area(80, 30, false).height, 18);
    assert_eq!(compact_height(10), 10);
    assert_eq!(compact_height(30), 15);
    assert_eq!(compact_height(100), 20);
}

#[test]
fn header_labels() {
    assert_eq!(station_label(Some(&"Jazz".to_string())), " Jazz ");
    assert_eq!(station_label(None), " Not Playing ");
    assert_eq!(volume_label(80, false), " Vol 80 ");
    assert_eq!(volume_label(35, true), " Muted(35) ");
}

#[test]
fn bottom_bar() {
    let keys: Vec<&str> = shortcuts(false).iter().map(|p| p.0).collect();
    assert_eq!(keys, vec!["?", "Enter", "m", "*/+", "-//", "q"]);
    assert_eq!(shortcuts(false)[4], ("-//", "Vol-"));
    let with: Vec<(&str, &str)> = shortcuts(true);
    assert_eq!(with[5], ("r", "Refresh"));
    assert_eq!(with[6], ("q", "Quit"));
}

#[test]
fn editor_choice() {
    assert_eq!(choose_editor(Some("vim".to_string()), Some("emacs".to_string())), "vim");
    assert_eq!(choose_editor(None, Some("emacs".to_string())), "emacs");
    assert_eq!(choose_editor(None, None), "nano");
}

#[test]
fn startup_checks() {
    assert!(nothing_configured(0, 0));
    assert!(!nothing_configured(1, 0));
    assert!(!nothing_configured(0, 2));
    assert!(nothing_to_play(0, 0));
    assert!(!nothing_to_play(0, 1));
}

#[test]
fn text_helpers() {
    assert_eq!(chars_of("aé"), vec!['a', 'é']);
    assert_eq!(decimal_text(0), "0");
    assert_eq!(decimal_text(-42), "-42");
    assert_eq!(parse_u32("007"), Some(7));
    assert_eq!(lowercase_chars("ÄBc"), vec!['ä', 'b', 'c']);
    assert!(text_less(&vec!['a'], &vec!['b']));
    assert!(text_less(&vec!['a'], &vec!['a', 'a']));
    assert!(!text_less(&vec!['b'], &vec!['a', 'z']));
    assert!(!text_less(&vec!['a'], &vec!['a']));
}

fn icy(genre: Option<&str>) -> IcyMetadata {
    let mut m = IcyMetadata::empty();
    m.name = Some("Radio".to_string());
    m.genre = genre.map(|g| g.to_string());
    m
}

#[test]
fn media_session_metadata() {
    let mut s = MediaSession::new();
    let n = s.now_playing();
    assert_eq!(n.track_id, "/org/mpris/MediaPlayer2/NoTrack");
    assert_eq!(n.title, None);
    assert_eq!(n.url, None);
    assert_eq!(s.playback_status(), "Stopped");
    s.station_started("Jazz FM", "http://jazz", Some(icy(Some("Jazz"))));
    let n = s.now_playing();
    assert_eq!(n.track_id, "/org/mpris/MediaPlayer2/Track1");
    assert_eq!(n.title, Some("Jazz FM".to_string()));
    assert_eq!(n.url, Some("http://jazz".to_string()));
    assert_eq!(n.genre, Some("Jazz".to_string()));
    assert_eq!(n.artist, None);
    assert_eq!(s.playback_status(), "Playing");
    match s.play_pause() {
        PlayPause::Stop => {}
        PlayPause::Play(_) => panic!("expected stop"),
    }
    s.stopped();
    match s.play_pause() {
        PlayPause::Play(u) => assert_eq!(u, "http://jazz"),
        PlayPause::Stop => panic!("expected play"),
    }
    s.address_started("http://other");
    assert_eq!(s.station_name, "");
    assert_eq!(s.url, "http://other");
    s.set_muted(true);
    assert!(s.muted);
}

#[test]
fn media_session_follows_player() {
    let mut s = MediaSession::new();
    let mut p = PlayerState::new();
    assert!(!s.sync_track(&p));
    p.track_title = Some("Song".to_string());
    p.track_artist = Some("Band".to_string());
    p.audio_bitrate = Some(128);
    assert!(s.sync_track(&p));
    assert_eq!(s.track_title, "Song");
    assert_eq!(s.track_artist, Some("Band".to_string()));
    assert_eq!(s.audio_bitrate, Some(128));
    assert!(!s.sync_track(&p));
    let n = s.now_playing();
    assert_eq!(n.title, Some("Song".to_string()));
    assert_eq!(n.artist, Some("Band".to_string()));
    p.icy_metadata = Some(icy(None));
    assert!(s.sync_track(&p));
    assert!(!s.sync_track(&p));
}

#[test]
fn macos_state_follows_player() {
    let mut m = MacOsMediaState::default();
    let mut p = PlayerState::new();
    assert!(!m.sync_track(&p));
    p.audio_bitrate = Some(64);
    assert!(!m.sync_track(&p));
    m.station_started("Deep", "http://deep", None);
    assert_eq!(m.shown_title(), "Deep");
    p.track_title = Some("Tune".to_string());
    assert!(m.sync_track(&p));
    assert_eq!(m.shown_title(), "Tune");
}

#[test]
fn header_geometry() {
    let r = header_row(&Area { x: 0, y: 2, width: 80, height: 3 });
    assert_eq!((r.x, r.y, r.width, r.height), (1, 3, 78, 1));
    let r = header_row(&Area { x: 5, y: 5, width: 1, height: 3 });
    assert_eq!(r.width, 0);
    assert_eq!(header_columns(78, 10, 8), (10, 60, 8));
    assert_eq!(header_columns(10, 10, 8), (10, 0, 8));
    assert_eq!(header_columns(78, 65536 + 3, 2), (3, 73, 2));
}

#[test]
fn white_space_matches_std() {
    for c in ['\t', '\n', '\u{b}', '\u{c}', '\r', ' ', '\u{85}', '\u{a0}', '\u{1680}', '\u{2000}', '\u{200a}', '\u{2028}', '\u{2029}', '\u{202f}', '\u{205f}', '\u{3000}', 'a', '-', '\u{200b}', '\u{feff}', '\u{8}', '\u{1f}'] {
        assert_eq!(radioboat::text::is_whitespace(c), c.is_whitespace(), "{:?}", c);
    }
}

#[test]
fn source_tags() {
    assert_eq!(radioboat::layout::source_tag("local", true), " [local]");
    assert_eq!(radioboat::layout::source_tag("Jazz lists", true), " [Jazz lists]");
    assert_eq!(radioboat::layout::source_tag("local", false), "");
}

#[test]
fn unsigned_numbers_read_like_std() {
    for t in ["0", "128", "+7", "4294967295", "4294967296", "99999999999999999999", "", "+", "-1", "12a", " 1", "007", "++1", "1+"] {
        assert_eq!(radioboat::text::parse_u32(t), t.parse::<u32>().ok(), "{:?}", t);
    }
}

#[test]
fn station_rows() {
    assert_eq!(row_emphasis(true, true), RowEmphasis::PlayingSelected);
    assert_eq!(row_emphasis(false, true), RowEmphasis::Playing);
    assert_eq!(row_emphasis(true, false), RowEmphasis::Selected);
    assert_eq!(row_emphasis(false, false), RowEmphasis::Plain);
    assert_eq!(row_prefix(true), "▶ ");
    assert_eq!(row_prefix(false), "  ");
    assert_eq!(remote_mark(true), " ☁");
    assert_eq!(remote_mark(false), "");
}

#[test]
fn decimal_text_matches_std() {
    for v in [0i64, 1, 9, 10, 99, 100, 12345, -1, -10, -907, i64::MAX, i64::MIN] {
        assert_eq!(decimal_text(v), v.to_string());
    }
}
