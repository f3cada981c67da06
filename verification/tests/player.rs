use radioboat::player::{command_line, observe_lines, socket_wait, SocketWait};
use radioboat::icy::{metadata_from_headers, IcyHeaders};
use radioboat::player::{
    clamp_volume, command_args, parse_artist_title, step_volume_down, step_volume_up, MpvCommand,
    MpvData, MpvMessage, PlayerState,
};

fn s(x: &str) -> String {
    x.to_string()
}

#[test]
fn artist_and_title() {
    assert_eq!(parse_artist_title("Artist - Title"), Some((s("Artist"), s("Title"))));
    assert_eq!(parse_artist_title("  A  -  T  "), Some((s("A"), s("T"))));
    assert_eq!(parse_artist_title("A - B - C"), Some((s("A"), s("B - C"))));
    assert_eq!(parse_artist_title("\u{3000}Ä\u{a0} - Ö\t"), Some((s("Ä"), s("Ö"))));
}

#[test]
fn no_artist_and_title() {
    assert_eq!(parse_artist_title("Just a title"), None);
    assert_eq!(parse_artist_title(" - Title"), None);
    assert_eq!(parse_artist_title("Artist - "), None);
    assert_eq!(parse_artist_title("A-B"), None);
    assert_eq!(parse_artist_title(""), None);
}

#[test]
fn command_arguments() {
    assert_eq!(command_args(&MpvCommand::LoadFile(s("http://x"))), vec!["loadfile", "http://x", "replace"]);
    assert_eq!(command_args(&MpvCommand::SetMute(true)), vec!["set_property", "mute", "yes"]);
    assert_eq!(command_args(&MpvCommand::SetMute(false)), vec!["set_property", "mute", "no"]);
    assert_eq!(command_args(&MpvCommand::SetVolume(85)), vec!["set_property", "volume", "85"]);
    assert_eq!(command_args(&MpvCommand::SetVolume(-5)), vec!["set_property", "volume", "-5"]);
    assert_eq!(
        command_args(&MpvCommand::SetVolume(i64::MIN)),
        vec!["set_property", "volume", "-9223372036854775808"]
    );
    assert_eq!(command_args(&MpvCommand::Stop), vec!["stop"]);
    assert_eq!(command_args(&MpvCommand::Quit), vec!["quit"]);
}

#[test]
fn volume_steps() {
    assert_eq!(step_volume_up(80), 85);
    assert_eq!(step_volume_up(108), 110);
    assert_eq!(step_volume_up(110), 110);
    assert_eq!(step_volume_up(500), 110);
    assert_eq!(step_volume_up(i64::MAX), 110);
    assert_eq!(step_volume_down(80), 75);
    assert_eq!(step_volume_down(3), 0);
    assert_eq!(step_volume_down(-20), 0);
    assert_eq!(step_volume_down(i64::MIN), 0);
}

#[test]
fn volume_steps_undo_each_other() {
    for v in 0..=105 {
        assert_eq!(step_volume_down(step_volume_up(v)), v);
    }
    for v in 5..=110 {
        assert_eq!(step_volume_up(step_volume_down(v)), v);
    }
}

#[test]
fn volume_clamp() {
    assert_eq!(clamp_volume(-3), 0);
    assert_eq!(clamp_volume(50), 50);
    assert_eq!(clamp_volume(111), 110);
}

#[test]
fn player_commands_update_state() {
    let mut p = PlayerState::new();
    assert_eq!(p.volume, 80);
    assert!(!p.muted);
    let c = p.toggle_mute_command();
    p.command_accepted(&c);
    assert!(p.muted);
    let c = p.toggle_mute_command();
    p.command_accepted(&c);
    assert!(!p.muted);
    let c = p.volume_up_command();
    p.command_accepted(&c);
    assert_eq!(p.volume, 85);
    let c = p.volume_down_command();
    p.command_accepted(&c);
    assert_eq!(p.volume, 80);
    p.command_accepted(&MpvCommand::Quit);
    assert_eq!(p.volume, 80);
}

fn change(name: &str, data: MpvData) -> MpvMessage {
    MpvMessage { event: Some(s("property-change")), name: Some(s(name)), data: Some(data) }
}

fn data() -> MpvData {
    MpvData { text: None, unsigned: None, samplerate: None, channel_count: None, format: None }
}

#[test]
fn media_title_messages() {
    let mut p = PlayerState::new();
    p.apply_message(&change("media-title", MpvData { text: Some(s("Daft Punk - Around the World")), ..data() }));
    assert_eq!(p.current_track, "Daft Punk - Around the World");
    assert_eq!(p.track_artist, Some(s("Daft Punk")));
    assert_eq!(p.track_title, Some(s("Around the World")));
    p.apply_message(&change("media-title", MpvData { text: Some(s("Station jingle")), ..data() }));
    assert_eq!(p.current_track, "Station jingle");
    assert_eq!(p.track_artist, None);
    assert_eq!(p.track_title, Some(s("Station jingle")));
    p.apply_message(&change("media-title", MpvData { unsigned: Some(3), ..data() }));
    assert_eq!(p.current_track, "Station jingle");
}

#[test]
fn bitrate_and_params_messages() {
    let mut p = PlayerState::new();
    p.apply_message(&change("audio-bitrate", MpvData { unsigned: Some(128000), ..data() }));
    assert_eq!(p.audio_bitrate, Some(128000));
    p.apply_message(&change("audio-bitrate", MpvData { unsigned: Some((1u64 << 32) + 5), ..data() }));
    assert_eq!(p.audio_bitrate, Some(5));
    p.apply_message(&change(
        "audio-params",
        MpvData { samplerate: Some(44100), channel_count: Some(2), format: Some(s("floatp")), ..data() },
    ));
    let params = p.audio_params.as_ref().unwrap();
    assert_eq!(params.samplerate, Some(44100));
    assert_eq!(params.channel_count, Some(2));
    assert_eq!(params.format, Some(s("floatp")));
}

#[test]
fn other_messages_change_nothing() {
    let mut p = PlayerState::new();
    p.apply_message(&MpvMessage { event: Some(s("start-file")), name: Some(s("media-title")), data: Some(MpvData { text: Some(s("X")), ..data() }) });
    assert_eq!(p.current_track, "");
    p.apply_message(&change("volume", MpvData { unsigned: Some(3), ..data() }));
    assert_eq!(p.volume, 80);
    p.apply_message(&MpvMessage { event: Some(s("property-change")), name: Some(s("audio-params")), data: None });
    assert!(p.audio_params.is_none());
}

fn headers() -> IcyHeaders {
    IcyHeaders { name: None, genre: None, description: None, url: None, logo: None, country: None, bitrate: None }
}

#[test]
fn icy_metadata_from_headers() {
    let m = metadata_from_headers(IcyHeaders { name: Some(s("Jazz FM")), bitrate: Some(s("128")), country: Some(s("FR")), ..headers() }).unwrap();
    assert_eq!(m.name, Some(s("Jazz FM")));
    assert_eq!(m.bitrate, Some(128));
    assert_eq!(m.country, Some(s("FR")));
    assert_eq!(m.genre, None);
}

#[test]
fn icy_bitrate_parsing() {
    let br = |b: &str| metadata_from_headers(IcyHeaders { genre: Some(s("Jazz")), bitrate: Some(s(b)), ..headers() }).unwrap().bitrate;
    assert_eq!(br("+64"), Some(64));
    assert_eq!(br("4294967295"), Some(u32::MAX));
    assert_eq!(br("4294967296"), None);
    assert_eq!(br("12a"), None);
    assert_eq!(br(""), None);
    assert_eq!(br("+"), None);
    assert_eq!(br("-1"), None);
    assert_eq!(br(" 1"), None);
}

#[test]
fn icy_headers_without_description() {
    assert!(metadata_from_headers(IcyHeaders { logo: Some(s("x.png")), bitrate: Some(s("96")), ..headers() }).is_none());
    assert!(metadata_from_headers(headers()).is_none());
    assert!(metadata_from_headers(IcyHeaders { url: Some(s("http://x")), ..headers() }).is_some());
    assert!(metadata_from_headers(IcyHeaders { description: Some(s("d")), ..headers() }).is_some());
}

#[test]
fn artist_and_title_round_trip() {
    for (a, t) in [("Daft Punk", "One More Time"), ("Björk", "Jóga - live"), ("X", "Y")] {
        let track = format!("{a} - {t}");
        assert_eq!(parse_artist_title(&track), Some((s(a), s(t))));
    }
}

#[test]
fn lines_from_the_player() {
    let mut p = PlayerState::new();
    p.apply_line(r#"{"event":"property-change","id":20000001,"name":"media-title","data":"Air - La femme d'argent"}"#);
    assert_eq!(p.current_track, "Air - La femme d'argent");
    assert_eq!(p.track_artist, Some(s("Air")));
    assert_eq!(p.track_title, Some(s("La femme d'argent")));
    p.apply_line(r#"{"event":"property-change","name":"audio-bitrate","data":192000}"#);
    assert_eq!(p.audio_bitrate, Some(192000));
    p.apply_line(r#"{"event":"property-change","name":"audio-params","data":{"samplerate":48000,"channel-count":2,"format":"s16"}}"#);
    let params = p.audio_params.as_ref().unwrap();
    assert_eq!((params.samplerate, params.channel_count, params.format.clone()), (Some(48000), Some(2), Some(s("s16"))));
    p.apply_line("not json at all");
    p.apply_line(r#"{"event":"property-change","name":"media-title","data":null}"#);
    p.apply_line(r#"{"error":"success","data":null,"request_id":0}"#);
    assert_eq!(p.current_track, "Air - La femme d'argent");
    assert_eq!(p.volume, 80);
}

#[test]
fn lines_to_the_player() {
    assert_eq!(
        command_line(&MpvCommand::LoadFile(s("http://radio/x"))),
        "{\"command\":[\"loadfile\",\"http://radio/x\",\"replace\"]}\n"
    );
    assert_eq!(command_line(&MpvCommand::SetVolume(85)), "{\"command\":[\"set_property\",\"volume\",\"85\"]}\n");
    assert_eq!(command_line(&MpvCommand::SetMute(true)), "{\"command\":[\"set_property\",\"mute\",\"yes\"]}\n");
    assert_eq!(command_line(&MpvCommand::Quit), "{\"command\":[\"quit\"]}\n");
    assert_eq!(command_line(&MpvCommand::LoadFile(s("a\"b"))), "{\"command\":[\"loadfile\",\"a\\\"b\",\"replace\"]}\n");
    assert_eq!(
        observe_lines(),
        vec![
            "{\"command\":[\"observe_property\",20000001,\"media-title\"]}\n",
            "{\"command\":[\"observe_property\",20000002,\"audio-bitrate\"]}\n",
            "{\"command\":[\"observe_property\",20000003,\"audio-params\"]}\n",
        ]
    );
}

#[test]
fn waiting_for_the_socket() {
    assert_eq!(socket_wait(0, true), SocketWait::Ready);
    assert_eq!(socket_wait(0, false), SocketWait::Sleep);
    assert_eq!(socket_wait(49, false), SocketWait::Sleep);
    assert_eq!(socket_wait(50, false), SocketWait::GiveUp);
    assert_eq!(socket_wait(50, true), SocketWait::Ready);
}
