//! What the desktop's media controls are told about playback: the state
//! shared with them, how it follows the player, and the metadata derived
//! from it.

use vstd::prelude::*;
use crate::icy::{clone_icy, clone_text, icy_view, same_icy, same_text, IcyMetadata, IcyView};
use crate::player::PlayerState;

verus! {

/// What the macOS media center shows.
pub struct MacOsMediaState {
    pub playing: bool,
    pub station_name: String,
    pub track_title: String,
    pub track_artist: Option<String>,
    pub url: String,
    pub icy_metadata: Option<IcyMetadata>,
}

/// What the MPRIS media controls show, but for the volume.
pub struct MediaSession {
    pub playing: bool,
    pub station_name: String,
    pub track_title: String,
    pub track_artist: Option<String>,
    pub url: String,
    pub muted: bool,
    pub icy_metadata: Option<IcyMetadata>,
    pub audio_bitrate: Option<u32>,
}

/// The mathematical value of a [`MediaSession`] or [`MacOsMediaState`]
/// (which has no mute flag or bitrate, taken as `false` and `None`).
pub struct SessionView {
    pub playing: bool,
    pub station_name: Seq<char>,
    pub track_title: Seq<char>,
    pub track_artist: Option<Seq<char>>,
    pub url: Seq<char>,
    pub muted: bool,
    pub icy_metadata: Option<IcyView>,
    pub audio_bitrate: Option<u32>,
}

impl View for MediaSession {
    type V = SessionView;

    open spec fn view(&self) -> SessionView {
        SessionView {
            playing: self.playing,
            station_name: self.station_name@,
            track_title: self.track_title@,
            track_artist: self.track_artist.deep_view(),
            url: self.url@,
            muted: self.muted,
            icy_metadata: icy_view(self.icy_metadata),
            audio_bitrate: self.audio_bitrate,
        }
    }
}

impl View for MacOsMediaState {
    type V = SessionView;

    open spec fn view(&self) -> SessionView {
        SessionView {
            playing: self.playing,
            station_name: self.station_name@,
            track_title: self.track_title@,
            track_artist: self.track_artist.deep_view(),
            url: self.url@,
            muted: false,
            icy_metadata: icy_view(self.icy_metadata),
            audio_bitrate: None,
        }
    }
}

/// Nothing playing and nothing known.
pub open spec fn idle_session() -> SessionView {
    SessionView {
        playing: false,
        station_name: Seq::empty(),
        track_title: Seq::empty(),
        track_artist: None,
        url: Seq::empty(),
        muted: false,
        icy_metadata: None,
        audio_bitrate: None,
    }
}

/// The session once a station of the list starts playing.
pub open spec fn station_started(s: SessionView, name: Seq<char>, url: Seq<char>, icy: Option<IcyView>) -> SessionView {
    SessionView { playing: true, url, station_name: name, track_title: Seq::empty(), icy_metadata: icy, ..s }
}

/// The session once an address that is no station of the list starts playing.
pub open spec fn address_started(s: SessionView, url: Seq<char>) -> SessionView {
    SessionView { playing: true, url, station_name: Seq::empty(), track_title: Seq::empty(), ..s }
}

/// The title shown: the track's title, or the station's name while no
/// track is announced.
pub open spec fn shown_title(s: SessionView) -> Seq<char> {
    if s.track_title.len() == 0 { s.station_name } else { s.track_title }
}

/// Whether the track information of `s` differs from the player's.
pub open spec fn track_differs(s: SessionView, p: crate::player::PlayerView, with_bitrate: bool) -> bool {
    ||| s.track_title != (match p.track_title { Some(t) => t, None => Seq::empty() })
    ||| s.track_artist != p.track_artist
    ||| s.icy_metadata != p.icy_metadata
    ||| (with_bitrate && s.audio_bitrate != p.audio_bitrate)
}

/// `s` with the player's track information.
pub open spec fn track_synced(s: SessionView, p: crate::player::PlayerView, with_bitrate: bool) -> SessionView {
    SessionView {
        track_title: match p.track_title { Some(t) => t, None => Seq::empty() },
        track_artist: p.track_artist,
        icy_metadata: p.icy_metadata,
        audio_bitrate: if with_bitrate { p.audio_bitrate } else { s.audio_bitrate },
        ..s
    }
}

/// The track's title as the player announces it, empty when it does not.
fn title_or_empty(p: &PlayerState) -> (r: String)
    ensures
        r@ == match p@.track_title { Some(t) => t, None => Seq::<char>::empty() },
{
    match &p.track_title {
        Some(t) => t.clone(),
        None => String::new(),
    }
}

/// The metadata the MPRIS media controls publish.
pub struct NowPlaying {
    pub track_id: String,
    pub title: Option<String>,
    pub artist: Option<String>,
    pub url: Option<String>,
    pub genre: Option<String>,
}

/// A request from the media controls' play/pause button.
pub enum PlayPause {
    Stop,
    Play(String),
}

/// The identifier of the current track: one while playing, another while
/// stopped.
pub open spec fn track_id_text(playing: bool) -> Seq<char> {
    if playing { "/org/mpris/MediaPlayer2/Track1"@ } else { "/org/mpris/MediaPlayer2/NoTrack"@ }
}

impl MediaSession {
    /// Nothing playing and nothing known.
    pub fn new() -> (s: Self)
        ensures
            s@ == idle_session(),
    {
        MediaSession {
            playing: false,
            station_name: String::new(),
            track_title: String::new(),
            track_artist: None,
            url: String::new(),
            muted: false,
            icy_metadata: None,
            audio_bitrate: None,
        }
    }

    /// A station of the list started playing.
    pub fn station_started(&mut self, name: &str, url: &str, icy: Option<IcyMetadata>)
        ensures
            final(self)@ == station_started(old(self)@, name@, url@, icy_view(icy)),
            final(self)@.track_title.len() == 0,
            shown_title(final(self)@) == name@,
    {
        self.playing = true;
        self.url = url.to_owned();
        self.station_name = name.to_owned();
        self.track_title = String::new();
        self.icy_metadata = icy;
    }

    /// An address that is no station of the list started playing.
    pub fn address_started(&mut self, url: &str)
        ensures
            final(self)@ == address_started(old(self)@, url@),
    {
        self.playing = true;
        self.url = url.to_owned();
        self.station_name = String::new();
        self.track_title = String::new();
    }

    /// Playback stopped.
    pub fn stopped(&mut self)
        ensures
            final(self)@ == (SessionView { playing: false, ..old(self)@ }),
    {
        self.playing = false;
    }

    /// Follows the player's mute flag.
    pub fn set_muted(&mut self, muted: bool)
        ensures
            final(self)@ == (SessionView { muted, ..old(self)@ }),
    {
        self.muted = muted;
    }

    /// Takes the player's track, artist, metadata and bitrate when any of
    /// them differs from what the controls show; says whether one did.
    pub fn sync_track(&mut self, p: &PlayerState) -> (changed: bool)
        ensures
            changed == track_differs(old(self)@, p@, true),
            final(self)@ == if changed { track_synced(old(self)@, p@, true) } else { old(self)@ },
    {
        let new_title = title_or_empty(p);
        let changed = !(self.track_title == new_title) || !same_text(&self.track_artist, &p.track_artist)
            || !same_icy(&self.icy_metadata, &p.icy_metadata) || self.audio_bitrate != p.audio_bitrate;
        if changed {
            self.track_title = new_title;
            self.track_artist = clone_text(&p.track_artist);
            self.icy_metadata = clone_icy(&p.icy_metadata);
            self.audio_bitrate = p.audio_bitrate;
        }
        changed
    }

    /// `Playing` or `Stopped`.
    pub fn playback_status(&self) -> (r: String)
        ensures
            r@ == if self.playing { "Playing"@ } else { "Stopped"@ },
    {
        if self.playing {
            String::from_str("Playing")
        } else {
            String::from_str("Stopped")
        }
    }

    /// What the play/pause button asks for: stop while playing, else play
    /// the last address again.
    pub fn play_pause(&self) -> (r: PlayPause)
        ensures
            self.playing ==> r is Stop,
            !self.playing ==> (r matches PlayPause::Play(u) && u@ == self.url@),
    {
        if self.playing {
            PlayPause::Stop
        } else {
            PlayPause::Play(self.url.clone())
        }
    }

    /// The metadata to publish: the track identifier; the shown title when
    /// not empty; the artist when known; the address when not empty; the
    /// genre when the stream announces one.
    pub fn now_playing(&self) -> (r: NowPlaying)
        ensures
            r.track_id@ == track_id_text(self.playing),
            r.title.deep_view() == if shown_title(self@).len() > 0 { Some(shown_title(self@)) } else { None },
            r.artist.deep_view() == self@.track_artist,
            r.url.deep_view() == if self.url@.len() > 0 { Some(self.url@) } else { None },
            r.genre.deep_view() == match self@.icy_metadata {
                Some(m) => m.genre,
                None => None,
            },
    {
        let track_id = if self.playing {
            String::from_str("/org/mpris/MediaPlayer2/Track1")
        } else {
            String::from_str("/org/mpris/MediaPlayer2/NoTrack")
        };
        let title = if self.track_title.as_str().is_empty() {
            self.station_name.clone()
        } else {
            self.track_title.clone()
        };
        let title = if title.as_str().is_empty() { None } else { Some(title) };
        let url = if self.url.as_str().is_empty() { None } else { Some(self.url.clone()) };
        let genre = match &self.icy_metadata {
            Some(m) => clone_text(&m.genre),
            None => None,
        };
        NowPlaying { track_id, title, artist: clone_text(&self.track_artist), url, genre }
    }
}

impl Default for MacOsMediaState {
    fn default() -> (s: Self)
        ensures
            s@ == idle_session(),
    {
        MacOsMediaState {
            playing: false,
            station_name: String::new(),
            track_title: String::new(),
            track_artist: None,
            url: String::new(),
            icy_metadata: None,
        }
    }
}

impl MacOsMediaState {
    /// A station of the list started playing.
    pub fn station_started(&mut self, name: &str, url: &str, icy: Option<IcyMetadata>)
        ensures
            final(self)@ == station_started(old(self)@, name@, url@, icy_view(icy)),
            final(self)@.track_title.len() == 0,
            shown_title(final(self)@) == name@,
    {
        self.playing = true;
        self.url = url.to_owned();
        self.station_name = name.to_owned();
        self.track_title = String::new();
        self.icy_metadata = icy;
    }

    /// Takes the player's track, artist and metadata when any of them
    /// differs from what the media center shows; says whether one did.
    pub fn sync_track(&mut self, p: &PlayerState) -> (changed: bool)
        ensures
            changed == track_differs(old(self)@, p@, false),
            final(self)@ == if changed { track_synced(old(self)@, p@, false) } else { old(self)@ },
    {
        let new_title = title_or_empty(p);
        let changed = !(self.track_title == new_title) || !same_text(&self.track_artist, &p.track_artist)
            || !same_icy(&self.icy_metadata, &p.icy_metadata);
        if changed {
            self.track_title = new_title;
            self.track_artist = clone_text(&p.track_artist);
            self.icy_metadata = clone_icy(&p.icy_metadata);
        }
        changed
    }

    /// The title shown: the track's title, or the station's name while no
    /// track is announced.
    pub fn shown_title(&self) -> (r: String)
        ensures
            r@ == shown_title(self@),
    {
        if self.track_title.as_str().is_empty() {
            self.station_name.clone()
        } else {
            self.track_title.clone()
        }
    }
}

/// Following the player twice in a row changes nothing the second time.
pub proof fn law_sync_settles(s: SessionView, p: crate::player::PlayerView, with_bitrate: bool)
    ensures
        !track_differs(track_synced(s, p, with_bitrate), p, with_bitrate),
        !track_differs(s, p, with_bitrate) ==> track_synced(s, p, with_bitrate) == s,
{
    if !track_differs(s, p, with_bitrate) {
        assert(track_synced(s, p, with_bitrate) =~= s);
    }
}

/// Starting a station forgets the track announced before: the title shown
/// is the new station's name, whatever was shown, and the result is the
/// same whichever track was announced before.
pub proof fn law_station_start_shows_its_name(
    s: SessionView,
    earlier_track: Seq<char>,
    name: Seq<char>,
    url: Seq<char>,
    icy: Option<IcyView>,
)
    ensures
        station_started(s, name, url, icy).track_title.len() == 0,
        shown_title(station_started(s, name, url, icy)) == name,
        station_started(SessionView { track_title: earlier_track, ..s }, name, url, icy) == station_started(
            s,
            name,
            url,
            icy,
        ),
        station_started(s, name, url, icy).playing,
        station_started(s, name, url, icy).station_name == name,
        station_started(s, name, url, icy).url == url,
        station_started(s, name, url, icy).icy_metadata == icy,
{
}

} // verus!
