//! The state of the audio player, the commands sent to it and how its
//! property-change events update the state.

use vstd::prelude::*;
use std::collections::BTreeMap;
use crate::icy::{clone_text, icy_view, IcyMetadata, IcyView};
use crate::text::{chars_of, decimal, decimal_text, find, find_chars, find_from, occurs_at, trim_bounds, trim_end, trim_start, trimmed};

verus! {

/// Parameters of the audio being played.
pub struct AudioParams {
    pub samplerate: Option<u32>,
    pub channel_count: Option<u32>,
    pub format: Option<String>,
}

/// The mathematical value of [`AudioParams`].
pub struct AudioParamsView {
    pub samplerate: Option<u32>,
    pub channel_count: Option<u32>,
    pub format: Option<Seq<char>>,
}

impl View for AudioParams {
    type V = AudioParamsView;

    open spec fn view(&self) -> AudioParamsView {
        AudioParamsView {
            samplerate: self.samplerate,
            channel_count: self.channel_count,
            format: self.format.deep_view(),
        }
    }
}

/// What the player is doing: volume, mute, and what the stream announces.
pub struct PlayerState {
    pub volume: i64,
    pub muted: bool,
    pub current_track: String,
    pub track_artist: Option<String>,
    pub track_title: Option<String>,
    pub icy_metadata: Option<IcyMetadata>,
    pub audio_bitrate: Option<u32>,
    pub audio_params: Option<AudioParams>,
}

/// The mathematical value of a [`PlayerState`].
pub struct PlayerView {
    pub volume: i64,
    pub muted: bool,
    pub current_track: Seq<char>,
    pub track_artist: Option<Seq<char>>,
    pub track_title: Option<Seq<char>>,
    pub icy_metadata: Option<IcyView>,
    pub audio_bitrate: Option<u32>,
    pub audio_params: Option<AudioParamsView>,
}

/// The value of optional audio parameters.
pub open spec fn params_view(p: Option<AudioParams>) -> Option<AudioParamsView> {
    match p {
        Some(x) => Some(x@),
        None => None,
    }
}

impl View for PlayerState {
    type V = PlayerView;

    open spec fn view(&self) -> PlayerView {
        PlayerView {
            volume: self.volume,
            muted: self.muted,
            current_track: self.current_track@,
            track_artist: self.track_artist.deep_view(),
            track_title: self.track_title.deep_view(),
            icy_metadata: icy_view(self.icy_metadata),
            audio_bitrate: self.audio_bitrate,
            audio_params: params_view(self.audio_params),
        }
    }
}

/// The loudest volume the player is set to by its volume keys.
pub const MAX_VOLUME: i64 = 110;

/// How much one volume key changes the volume.
pub const VOLUME_STEP: i64 = 5;

/// The volume after one step up: five more, but no more than the maximum.
pub open spec fn volume_after_up(v: i64) -> i64 {
    if v + VOLUME_STEP < MAX_VOLUME { (v + VOLUME_STEP) as i64 } else { MAX_VOLUME }
}

/// The volume after one step down: five less, but not below zero.
pub open spec fn volume_after_down(v: i64) -> i64 {
    if v - VOLUME_STEP > 0 { (v - VOLUME_STEP) as i64 } else { 0 }
}

/// `v` clamped to the range `0..=110`.
pub open spec fn clamped_volume(v: i64) -> i64 {
    if v < 0 { 0 } else if v > MAX_VOLUME { MAX_VOLUME } else { v }
}

/// The volume one step up from `v`.
pub fn step_volume_up(v: i64) -> (r: i64)
    ensures
        r == volume_after_up(v),
{
    if v >= MAX_VOLUME - VOLUME_STEP { MAX_VOLUME } else { v + VOLUME_STEP }
}

/// The volume one step down from `v`.
pub fn step_volume_down(v: i64) -> (r: i64)
    ensures
        r == volume_after_down(v),
{
    if v <= VOLUME_STEP { 0 } else { v - VOLUME_STEP }
}

/// `v` clamped to the range `0..=110`.
pub fn clamp_volume(v: i64) -> (r: i64)
    ensures
        r == clamped_volume(v),
{
    if v < 0 { 0 } else if v > MAX_VOLUME { MAX_VOLUME } else { v }
}

/// A command for the player.
pub enum MpvCommand {
    /// Play the stream at this address, replacing what plays.
    LoadFile(String),
    /// Mute or unmute.
    SetMute(bool),
    /// Set the volume.
    SetVolume(i64),
    /// Stop playing.
    Stop,
    /// Quit the player.
    Quit,
}

/// The arguments of the player's JSON command for `cmd`.
pub open spec fn command_words(cmd: MpvCommand) -> Seq<Seq<char>> {
    match cmd {
        MpvCommand::LoadFile(url) => seq!["loadfile"@, url@, "replace"@],
        MpvCommand::SetMute(m) => seq!["set_property"@, "mute"@, if m { "yes"@ } else { "no"@ }],
        MpvCommand::SetVolume(v) => seq!["set_property"@, "volume"@, decimal(v as int)],
        MpvCommand::Stop => seq!["stop"@],
        MpvCommand::Quit => seq!["quit"@],
    }
}

/// The texts of a sequence of strings.
pub open spec fn words_of(v: Seq<String>) -> Seq<Seq<char>> {
    v.map_values(|s: String| s@)
}

/// The arguments of the player's JSON command for `cmd`.
pub fn command_args(cmd: &MpvCommand) -> (r: Vec<String>)
    ensures
        words_of(r@) == command_words(*cmd),
{
    let mut r: Vec<String> = Vec::new();
    match cmd {
        MpvCommand::LoadFile(url) => {
            r.push(String::from_str("loadfile"));
            r.push(url.clone());
            r.push(String::from_str("replace"));
        },
        MpvCommand::SetMute(m) => {
            r.push(String::from_str("set_property"));
            r.push(String::from_str("mute"));
            if *m {
                r.push(String::from_str("yes"));
            } else {
                r.push(String::from_str("no"));
            }
        },
        MpvCommand::SetVolume(v) => {
            r.push(String::from_str("set_property"));
            r.push(String::from_str("volume"));
            r.push(decimal_text(*v));
        },
        MpvCommand::Stop => {
            r.push(String::from_str("stop"));
        },
        MpvCommand::Quit => {
            r.push(String::from_str("quit"));
        },
    }
    assert(words_of(r@) =~= command_words(*cmd));
    r
}

/// Artist and title of a track announced as `artist - title`: the text
/// before and after the first ` - `, each trimmed of white space, when
/// neither is empty.
pub open spec fn artist_title(track: Seq<char>) -> Option<(Seq<char>, Seq<char>)> {
    match find(track, " - "@) {
        None => None,
        Some(i) => {
            let artist = trimmed(track.subrange(0, i));
            let title = trimmed(track.subrange(i + 3, track.len() as int));
            if artist.len() == 0 || title.len() == 0 {
                None
            } else {
                Some((artist, title))
            }
        },
    }
}

/// Splits a track announced as `artist - title` into artist and title.
pub fn parse_artist_title(track: &str) -> (r: Option<(String, String)>)
    ensures
        match r {
            Some((a, t)) => artist_title(track@) == Some((a@, t@)),
            None => artist_title(track@) is None,
        },
{
    let v = chars_of(track);
    let n = v.len();
    let sep = chars_of(" - ");
    match find_chars(&v, &sep) {
        None => None,
        Some(i) => {
            proof {
                reveal_strlit(" - ");
            }
            let (a0, a1) = trim_bounds(&v, 0, i);
            let (t0, t1) = trim_bounds(&v, i + sep.len(), n);
            if a0 == a1 || t0 == t1 {
                None
            } else {
                let artist = track.substring_char(a0, a1).to_owned();
                let title = track.substring_char(t0, t1).to_owned();
                Some((artist, title))
            }
        },
    }
}

/// A message from the player, with the fields that matter read out of it.
pub struct MpvMessage {
    /// The `event` field, when it is text.
    pub event: Option<String>,
    /// The `name` field, when it is text.
    pub name: Option<String>,
    /// The `data` field, when there is one.
    pub data: Option<MpvData>,
}

/// The `data` field of a player message, read in the ways that matter.
pub struct MpvData {
    /// The value, when it is text.
    pub text: Option<String>,
    /// The value, when it is an unsigned integer.
    pub unsigned: Option<u64>,
    /// Its `samplerate` field, when that is an unsigned integer.
    pub samplerate: Option<u64>,
    /// Its `channel-count` field, when that is an unsigned integer.
    pub channel_count: Option<u64>,
    /// Its `format` field, when that is text.
    pub format: Option<String>,
}

/// The value of a player message.
pub struct MpvMessageView {
    pub event: Option<Seq<char>>,
    pub name: Option<Seq<char>>,
    pub data: Option<MpvDataView>,
}

/// The value of a player message's `data` field.
pub struct MpvDataView {
    pub text: Option<Seq<char>>,
    pub unsigned: Option<u64>,
    pub samplerate: Option<u64>,
    pub channel_count: Option<u64>,
    pub format: Option<Seq<char>>,
}

impl View for MpvData {
    type V = MpvDataView;

    open spec fn view(&self) -> MpvDataView {
        MpvDataView {
            text: self.text.deep_view(),
            unsigned: self.unsigned,
            samplerate: self.samplerate,
            channel_count: self.channel_count,
            format: self.format.deep_view(),
        }
    }
}

impl View for MpvMessage {
    type V = MpvMessageView;

    open spec fn view(&self) -> MpvMessageView {
        MpvMessageView {
            event: self.event.deep_view(),
            name: self.name.deep_view(),
            data: match self.data {
                Some(d) => Some(d@),
                None => None,
            },
        }
    }
}

/// The audio parameters that a message's `data` describes.
pub open spec fn params_of(d: MpvDataView) -> AudioParamsView {
    AudioParamsView {
        samplerate: match d.samplerate { Some(v) => Some(v as u32), None => None },
        channel_count: match d.channel_count { Some(v) => Some(v as u32), None => None },
        format: d.format,
    }
}

/// The player state after a message from the player: a change of the
/// media title sets the track and, when it reads `artist - title`, artist
/// and title (else no artist and the whole text as title); a change of the
/// bitrate or of the audio parameters records them (each number cut to 32
/// bits); any other message changes nothing.
pub open spec fn after_message(s: PlayerView, m: MpvMessageView) -> PlayerView {
    if m.event != Some("property-change"@) {
        s
    } else if m.name == Some("media-title"@) {
        match m.data {
            Some(d) => match d.text {
                Some(t) => match artist_title(t) {
                    Some((a, title)) => PlayerView {
                        current_track: t,
                        track_artist: Some(a),
                        track_title: Some(title),
                        ..s
                    },
                    None => PlayerView {
                        current_track: t,
                        track_artist: None,
                        track_title: Some(t),
                        ..s
                    },
                },
                None => s,
            },
            None => s,
        }
    } else if m.name == Some("audio-bitrate"@) {
        match m.data {
            Some(d) => match d.unsigned {
                Some(b) => PlayerView { audio_bitrate: Some(b as u32), ..s },
                None => s,
            },
            None => s,
        }
    } else if m.name == Some("audio-params"@) {
        match m.data {
            Some(d) => PlayerView { audio_params: Some(params_of(d)), ..s },
            None => s,
        }
    } else {
        s
    }
}

/// What one line from the player reads as: `None` when the line is not a
/// JSON value, else its `event` and `name` fields when they are text, and
/// its `data` field read as text, as an unsigned number, and through its
/// `samplerate`, `channel-count` and `format` fields.
pub uninterp spec fn mpv_reading(line: Seq<char>) -> Option<MpvMessageView>;

/// The value of a message that may be missing.
pub open spec fn message_view(m: Option<MpvMessage>) -> Option<MpvMessageView> {
    match m {
        Some(x) => Some(x@),
        None => None,
    }
}

/// `serde_json::from_str::<serde_json::Value>` on one line from the player,
/// then `Value::get`, `Value::as_str` and `Value::as_u64` on the fields the
/// library reads. The result is named `mpv_reading` of the line: it depends
/// on the line alone.
#[verifier::external_body]
fn read_mpv_line(line: &str) -> (m: Option<MpvMessage>)
    ensures
        message_view(m) == mpv_reading(line@),
{
    let v: serde_json::Value = serde_json::from_str(line).ok()?;
    let text = |x: Option<&serde_json::Value>| x.and_then(serde_json::Value::as_str).map(String::from);
    let number = |x: Option<&serde_json::Value>| x.and_then(serde_json::Value::as_u64);
    Some(MpvMessage {
        event: text(v.get("event")),
        name: text(v.get("name")),
        data: v.get("data").map(|d| MpvData {
            text: text(Some(d)),
            unsigned: number(Some(d)),
            samplerate: number(d.get("samplerate")),
            channel_count: number(d.get("channel-count")),
            format: text(d.get("format")),
        }),
    })
}

/// The JSON text `{"command":[...]}` of a command with these arguments, as
/// `serde_json::to_string` writes it.
pub uninterp spec fn json_command(words: Seq<Seq<char>>) -> Seq<char>;

/// `serde_json::to_string` of the object `{"command": words}`. Writing a
/// map with text keys and a list of texts cannot fail; the result is named
/// `json_command` of the words.
#[verifier::external_body]
fn encode_command(words: &Vec<String>) -> (t: String)
    ensures
        t@ == json_command(words_of(words@)),
{
    serde_json::to_string(&BTreeMap::from([("command", words)])).unwrap_or_default()
}

/// The JSON text `{"command":["observe_property",id,property]}`, as
/// `serde_json::to_string` writes it.
pub uninterp spec fn json_observe(id: u64, property: Seq<char>) -> Seq<char>;

/// `serde_json::to_string` of the object
/// `{"command": ["observe_property", id, property]}`. Writing it cannot
/// fail; the result is named `json_observe` of the number and the name.
#[verifier::external_body]
fn encode_observe(id: u64, property: &str) -> (t: String)
    ensures
        t@ == json_observe(id, property@),
{
    serde_json::to_string(&BTreeMap::from([("command", ("observe_property", id, property))])).unwrap_or_default()
}

/// The line sent to the player for `cmd`: its JSON command and a newline.
pub fn command_line(cmd: &MpvCommand) -> (l: String)
    ensures
        l@ == json_command(command_words(*cmd)) + "\n"@,
{
    let mut l = encode_command(&command_args(cmd));
    l.append("\n");
    l
}

/// The line that asks the player to report changes of `property`, tagged
/// with `id`.
pub fn observe_line(id: u64, property: &str) -> (l: String)
    ensures
        l@ == json_observe(id, property@) + "\n"@,
{
    let mut l = encode_observe(id, property);
    l.append("\n");
    l
}

/// What to do while waiting for the player's socket to appear.
#[derive(PartialEq, Eq, Structural, Clone, Copy, Debug)]
pub enum SocketWait {
    /// The socket is there: go on.
    Ready,
    /// Wait `SOCKET_RETRY_MS` and look again.
    Sleep,
    /// Give up: the player did not create its socket.
    GiveUp,
}

/// How many times to wait for the socket before giving up.
pub const SOCKET_CHECKS: u32 = 50;

/// How long one wait for the socket lasts, in milliseconds.
pub const SOCKET_RETRY_MS: u64 = 100;

/// The step after looking for the socket, having waited `waits` times
/// already: go on once it exists, else wait again up to `SOCKET_CHECKS`
/// times, then give up.
pub open spec fn socket_wait_step(waits: u32, exists: bool) -> SocketWait {
    if exists {
        SocketWait::Ready
    } else if waits < SOCKET_CHECKS {
        SocketWait::Sleep
    } else {
        SocketWait::GiveUp
    }
}

/// Decides the next step of the wait for the player's socket.
pub fn socket_wait(waits: u32, exists: bool) -> (w: SocketWait)
    ensures
        w == socket_wait_step(waits, exists),
{
    if exists {
        SocketWait::Ready
    } else if waits < SOCKET_CHECKS {
        SocketWait::Sleep
    } else {
        SocketWait::GiveUp
    }
}

/// The tag of the reports on the media title.
pub const MEDIA_TITLE_ID: u64 = 20_000_001;

/// The tag of the reports on the bitrate.
pub const AUDIO_BITRATE_ID: u64 = 20_000_002;

/// The tag of the reports on the audio parameters.
pub const AUDIO_PARAMS_ID: u64 = 20_000_003;

/// The lines sent once connected: reports on the media title, the bitrate
/// and the audio parameters, in that order.
pub open spec fn observe_texts() -> Seq<Seq<char>> {
    seq![
        json_observe(MEDIA_TITLE_ID, "media-title"@) + "\n"@,
        json_observe(AUDIO_BITRATE_ID, "audio-bitrate"@) + "\n"@,
        json_observe(AUDIO_PARAMS_ID, "audio-params"@) + "\n"@,
    ]
}

/// The lines that ask the player for the reports the state follows.
pub fn observe_lines() -> (r: Vec<String>)
    ensures
        words_of(r@) == observe_texts(),
{
    let mut r: Vec<String> = Vec::new();
    r.push(observe_line(MEDIA_TITLE_ID, "media-title"));
    r.push(observe_line(AUDIO_BITRATE_ID, "audio-bitrate"));
    r.push(observe_line(AUDIO_PARAMS_ID, "audio-params"));
    assert(words_of(r@) =~= observe_texts());
    r
}

/// Whether `t` is `Some` text equal to `x`.
fn text_equals(t: &Option<String>, x: &str) -> (r: bool)
    ensures
        r == (t.deep_view() == Some(x@)),
{
    match t {
        Some(s) => *s == String::from_str(x),
        None => false,
    }
}

/// A number cut to its low 32 bits.
fn low_bits(v: u64) -> (r: u32)
    ensures
        r == v as u32,
{
    #[verifier::truncate]
    (v as u32)
}

fn low_bits_opt(v: Option<u64>) -> (r: Option<u32>)
    ensures
        r == match v { Some(x) => Some(x as u32), None => None::<u32> },
{
    match v {
        Some(x) => Some(low_bits(x)),
        None => None,
    }
}

impl PlayerState {
    /// The state of a freshly started player: volume 80, not muted, nothing
    /// announced.
    pub fn new() -> (s: Self)
        ensures
            s@ == (PlayerView {
                volume: 80,
                muted: false,
                current_track: Seq::empty(),
                track_artist: None,
                track_title: None,
                icy_metadata: None,
                audio_bitrate: None,
                audio_params: None,
            }),
    {
        PlayerState {
            volume: 80,
            muted: false,
            current_track: String::new(),
            track_artist: None,
            track_title: None,
            icy_metadata: None,
            audio_bitrate: None,
            audio_params: None,
        }
    }

    /// The command that toggles muting.
    pub fn toggle_mute_command(&self) -> (c: MpvCommand)
        ensures
            c == MpvCommand::SetMute(!self.muted),
    {
        MpvCommand::SetMute(!self.muted)
    }

    /// The command that turns the volume one step up.
    pub fn volume_up_command(&self) -> (c: MpvCommand)
        ensures
            c == MpvCommand::SetVolume(volume_after_up(self.volume)),
    {
        MpvCommand::SetVolume(step_volume_up(self.volume))
    }

    /// The command that turns the volume one step down.
    pub fn volume_down_command(&self) -> (c: MpvCommand)
        ensures
            c == MpvCommand::SetVolume(volume_after_down(self.volume)),
    {
        MpvCommand::SetVolume(step_volume_down(self.volume))
    }

    /// Records the effect of a command the player has accepted: a mute
    /// command sets the mute flag, a volume command the volume; other
    /// commands change nothing here.
    pub fn command_accepted(&mut self, cmd: &MpvCommand)
        ensures
            final(self)@ == match *cmd {
                MpvCommand::SetMute(m) => PlayerView { muted: m, ..old(self)@ },
                MpvCommand::SetVolume(v) => PlayerView { volume: v, ..old(self)@ },
                _ => old(self)@,
            },
    {
        match cmd {
            MpvCommand::SetMute(m) => {
                self.muted = *m;
            },
            MpvCommand::SetVolume(v) => {
                self.volume = *v;
            },
            _ => {},
        }
    }

    /// Updates the state from a message of the player.
    pub fn apply_message(&mut self, m: &MpvMessage)
        ensures
            final(self)@ == after_message(old(self)@, m@),
    {
        if !text_equals(&m.event, "property-change") {
            return;
        }
        if text_equals(&m.name, "media-title") {
            if let Some(d) = &m.data {
                if let Some(t) = &d.text {
                    match parse_artist_title(t.as_str()) {
                        Some((a, title)) => {
                            self.current_track = t.clone();
                            self.track_artist = Some(a);
                            self.track_title = Some(title);
                        },
                        None => {
                            self.current_track = t.clone();
                            self.track_artist = None;
                            self.track_title = Some(t.clone());
                        },
                    }
                }
            }
        } else if text_equals(&m.name, "audio-bitrate") {
            if let Some(d) = &m.data {
                if let Some(b) = d.unsigned {
                    self.audio_bitrate = Some(low_bits(b));
                }
            }
        } else if text_equals(&m.name, "audio-params") {
            if let Some(d) = &m.data {
                self.audio_params = Some(
                    AudioParams {
                        samplerate: low_bits_opt(d.samplerate),
                        channel_count: low_bits_opt(d.channel_count),
                        format: clone_text(&d.format),
                    },
                );
            }
        }
    }
}


impl PlayerState {
    /// Updates the state from one line the player sent: a line that reads
    /// as a message is applied, any other line changes nothing.
    pub fn apply_line(&mut self, line: &str)
        ensures
            final(self)@ == match mpv_reading(line@) {
                Some(v) => after_message(old(self)@, v),
                None => old(self)@,
            },
    {
        match read_mpv_line(line) {
            Some(m) => self.apply_message(&m),
            None => {},
        }
    }
}

/// The player state after the player accepted `cmd`.
pub open spec fn after_command(s: PlayerView, cmd: MpvCommand) -> PlayerView {
    match cmd {
        MpvCommand::SetMute(m) => PlayerView { muted: m, ..s },
        MpvCommand::SetVolume(v) => PlayerView { volume: v, ..s },
        _ => s,
    }
}

/// Toggling the mute twice restores the state.
pub proof fn law_mute_toggle_twice(s: PlayerView)
    ensures
        after_command(
            after_command(s, MpvCommand::SetMute(!s.muted)),
            MpvCommand::SetMute(!after_command(s, MpvCommand::SetMute(!s.muted)).muted),
        ) == s,
{
}

/// The volume keys never go beyond 0 and 110, and keep a volume within that
/// range within it.
pub proof fn law_volume_bounds(v: i64)
    ensures
        volume_after_up(v) <= MAX_VOLUME,
        volume_after_down(v) >= 0,
        0 <= v <= MAX_VOLUME ==> 0 <= volume_after_up(v) <= MAX_VOLUME,
        0 <= v <= MAX_VOLUME ==> 0 <= volume_after_down(v) <= MAX_VOLUME,
        0 <= clamped_volume(v) <= MAX_VOLUME,
        0 <= v <= MAX_VOLUME ==> clamped_volume(v) == v,
{
}

/// A step up undone by a step down, and the other way round, away from the
/// limits.
pub proof fn law_volume_steps_undo(v: i64)
    ensures
        0 <= v <= MAX_VOLUME - VOLUME_STEP ==> volume_after_down(volume_after_up(v)) == v,
        VOLUME_STEP <= v <= MAX_VOLUME ==> volume_after_up(volume_after_down(v)) == v,
{
}

/// A step up or down changes a volume within range by at most one step.
pub proof fn law_volume_step_size(v: i64)
    requires
        0 <= v <= MAX_VOLUME,
    ensures
        v <= volume_after_up(v) <= v + VOLUME_STEP,
        v - VOLUME_STEP <= volume_after_down(v) <= v,
{
}

proof fn lemma_trim_ends(s: Seq<char>)
    ensures
        trim_start(s).len() > 0 ==> !crate::text::is_white_space(trim_start(s)[0]),
        trim_end(s).len() > 0 ==> !crate::text::is_white_space(trim_end(s).last()),
        trim_end(s).len() <= s.len(),
        forall|i: int| 0 <= i < trim_end(s).len() ==> trim_end(s)[i] == s[i],
    decreases s.len(),
{
    if s.len() > 0 && crate::text::is_white_space(s[0]) {
        lemma_trim_ends(s.drop_first());
    }
    if s.len() > 0 && crate::text::is_white_space(s.last()) {
        lemma_trim_ends(s.drop_last());
        assert forall|i: int| 0 <= i < trim_end(s).len() implies trim_end(s)[i] == s[i] by {
            assert(s.drop_last()[i] == s[i]);
        }
    }
}

/// Artist and title, when a track reads `artist - title`, are non-empty and
/// start and end with something other than white space.
pub proof fn law_artist_title_trimmed(track: Seq<char>)
    ensures
        artist_title(track) matches Some((a, t)) ==> {
            &&& a.len() > 0 && t.len() > 0
            &&& !crate::text::is_white_space(a[0]) && !crate::text::is_white_space(a.last())
            &&& !crate::text::is_white_space(t[0]) && !crate::text::is_white_space(t.last())
        },
{
    match find(track, " - "@) {
        None => {},
        Some(i) => {
            let a0 = trim_start(track.subrange(0, i));
            let t0 = trim_start(track.subrange(i + 3, track.len() as int));
            lemma_trim_ends(track.subrange(0, i));
            lemma_trim_ends(a0);
            lemma_trim_ends(track.subrange(i + 3, track.len() as int));
            lemma_trim_ends(t0);
        },
    }
}

/// Before the artist ends, ` - ` does not occur in `artist - title`: the
/// artist holds no `-`.
proof fn lemma_separator_after_artist(a: Seq<char>, t: Seq<char>, j: int)
    requires
        0 <= j <= a.len(),
        !a.contains('-'),
    ensures
        find_from(a + " - "@ + t, " - "@, j) == Some(a.len() as int),
    decreases a.len() - j,
{
    reveal_strlit(" - ");
    let s = a + " - "@ + t;
    if j < a.len() {
        assert(!occurs_at(s, " - "@, j)) by {
            if occurs_at(s, " - "@, j) {
                assert(s.subrange(j, j + 3)[1] == s[j + 1]);
                if j + 1 < a.len() {
                    assert(s[j + 1] == a[j + 1]);
                    assert(a.contains(a[j + 1]));
                } else {
                    assert(s[j + 1] == ' ');
                }
            }
        }
        lemma_separator_after_artist(a, t, j + 1);
    } else {
        assert(s.subrange(j, j + 3) =~= " - "@);
    }
}

/// A track announced as `artist - title`, with artist and title non-empty,
/// without surrounding white space, and no `-` in the artist, gives that
/// artist and title back.
pub proof fn law_artist_title_round_trip(a: Seq<char>, t: Seq<char>)
    requires
        a.len() > 0,
        t.len() > 0,
        trimmed(a) == a,
        trimmed(t) == t,
        !a.contains('-'),
    ensures
        artist_title(a + " - "@ + t) == Some((a, t)),
{
    reveal_strlit(" - ");
    let s = a + " - "@ + t;
    lemma_separator_after_artist(a, t, 0);
    assert(s.subrange(0, a.len() as int) =~= a);
    assert(s.subrange(a.len() as int + 3, s.len() as int) =~= t);
}

/// A change of the media title to `artist - title` (artist and title
/// non-empty and without surrounding white space, no `-` in the artist)
/// sets the track to that text, the artist and the title, and leaves the
/// volume, muting and everything else as it was.
pub proof fn law_media_title_update(s: PlayerView, m: MpvMessageView, d: MpvDataView, a: Seq<char>, t: Seq<char>)
    requires
        m.event == Some("property-change"@),
        m.name == Some("media-title"@),
        m.data == Some(d),
        d.text == Some(a + " - "@ + t),
        a.len() > 0,
        t.len() > 0,
        trimmed(a) == a,
        trimmed(t) == t,
        !a.contains('-'),
    ensures
        after_message(s, m) == (PlayerView {
            current_track: a + " - "@ + t,
            track_artist: Some(a),
            track_title: Some(t),
            ..s
        }),
{
    law_artist_title_round_trip(a, t);
}

} // verus!
