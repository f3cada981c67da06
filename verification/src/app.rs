//! The application's state and how keys and the outcomes of the player's
//! and imports' work change it.

use vstd::prelude::*;
use crate::message::{drop_expired, expiry_of, live_at, message_views, Message, MessageView};
use crate::station::{
    clone_imports, clone_list, import_views, merge_input, merge_stations, stably_sorted, views, Import,
    ImportView, Station, StationView,
};
use crate::import::texts;

verus! {

broadcast use vstd::seq_lib::group_seq_properties;

/// A key press, by the key alone.
#[derive(PartialEq, Eq, Structural, Clone, Copy, Debug)]
pub enum Key {
    Char(char),
    Esc,
    Up,
    Down,
    Left,
    Right,
    Enter,
    /// Any other key.
    Other,
}

/// What the application asks for after a key press.
#[derive(PartialEq, Eq, Structural, Clone, Copy, Debug)]
pub enum KeyAction {
    /// Nothing more to do.
    Continue,
    /// Close the player and leave.
    Quit,
    /// Toggle muting.
    ToggleMute,
    /// Play the station under the cursor.
    PlayCurrent,
    /// Turn the volume one step up.
    VolumeUp,
    /// Turn the volume one step down.
    VolumeDown,
    /// Copy the current track's title to the clipboard.
    CopyTrack,
    /// Read the imported station lists again.
    Refresh,
}

/// An operation of the player that can fail.
#[derive(PartialEq, Eq, Structural, Clone, Copy, Debug)]
pub enum Failure {
    Mute,
    VolumeUp,
    VolumeDown,
}

/// The application's state: the station lists, the cursor, what plays, the
/// messages, the help overlay and the terminal's size.
pub struct App {
    local_stations: Vec<Station>,
    stations: Vec<Station>,
    imports: Vec<Import>,
    cursor: usize,
    playing_index: Option<usize>,
    messages: Vec<Message>,
    show_help: bool,
    width: u16,
    height: u16,
    refreshing: bool,
}

/// The mathematical value of the application's state.
pub struct AppView {
    pub local: Seq<StationView>,
    pub stations: Seq<StationView>,
    pub imports: Seq<ImportView>,
    pub cursor: int,
    pub playing_index: Option<usize>,
    pub messages: Seq<MessageView>,
    pub show_help: bool,
    pub width: u16,
    pub height: u16,
    pub refreshing: bool,
}

impl View for App {
    type V = AppView;

    closed spec fn view(&self) -> AppView {
        AppView {
            local: views(self.local_stations@),
            stations: views(self.stations@),
            imports: import_views(self.imports@),
            cursor: self.cursor as int,
            playing_index: self.playing_index,
            messages: message_views(self.messages@),
            show_help: self.show_help,
            width: self.width,
            height: self.height,
            refreshing: self.refreshing,
        }
    }
}

impl App {
    /// Every application's state is well-formed.
    #[verifier::type_invariant]
    spec fn well_formed(self) -> bool {
        wf(self@)
    }
}

/// A well-formed state: the cursor is on a station when there are any, and
/// the playing station is one of the list.
pub open spec fn wf(s: AppView) -> bool {
    &&& 0 <= s.cursor
    &&& s.stations.len() > 0 ==> s.cursor < s.stations.len()
    &&& s.playing_index matches Some(i) ==> i < s.stations.len()
}

/// How many stations one page key moves: the height less six rows of
/// frame, at least one.
pub open spec fn page_rows(height: u16) -> int {
    if height as int - 6 > 1 { height as int - 6 } else { 1 }
}

/// `s` with the cursor at `c`.
pub open spec fn with_cursor(s: AppView, c: int) -> AppView {
    AppView { cursor: c, ..s }
}

/// Keys that move the cursor within the list and need a non-empty list.
pub open spec fn wraps_in_list(key: Key) -> bool {
    key == Key::Char('j') || key == Key::Down || key == Key::Char('k') || key == Key::Up
        || key == Key::Char('l') || key == Key::Right
}

/// Whether the key moves the cursor within the list, which needs stations.
pub fn needs_stations(key: Key) -> (r: bool)
    ensures
        r == wraps_in_list(key),
{
    key == Key::Char('j') || key == Key::Down || key == Key::Char('k') || key == Key::Up
        || key == Key::Char('l') || key == Key::Right
}

/// The state and request after a key press. With the help shown, `h` or
/// Escape hides it and every other key does nothing. Otherwise: `q` or
/// Escape quits; `j`/Down moves down, from the last station to the first;
/// `k`/Up moves up, from the first to the last; `h`/Left moves a page up,
/// not past the first; `l`/Right moves a page down, not past the last; `m`
/// toggles muting; Enter plays the station under the cursor; `*`/`+` and
/// `-`/`/` change the volume; `?` shows the help; `y` copies the track; `r`
/// reads the imports again when there are any; every other key does
/// nothing.
pub open spec fn key_outcome(s: AppView, key: Key) -> (AppView, KeyAction) {
    let n = s.stations.len() as int;
    if s.show_help {
        if key == Key::Char('h') || key == Key::Esc {
            (AppView { show_help: false, ..s }, KeyAction::Continue)
        } else {
            (s, KeyAction::Continue)
        }
    } else if key == Key::Char('q') || key == Key::Esc {
        (s, KeyAction::Quit)
    } else if key == Key::Char('j') || key == Key::Down {
        (with_cursor(s, if s.cursor + 1 < n { s.cursor + 1 } else { 0 }), KeyAction::Continue)
    } else if key == Key::Char('k') || key == Key::Up {
        (with_cursor(s, if s.cursor > 0 { s.cursor - 1 } else { n - 1 }), KeyAction::Continue)
    } else if key == Key::Char('h') || key == Key::Left {
        let p = page_rows(s.height);
        (with_cursor(s, if s.cursor >= p { s.cursor - p } else { 0 }), KeyAction::Continue)
    } else if key == Key::Char('l') || key == Key::Right {
        let p = page_rows(s.height);
        (with_cursor(s, if s.cursor + p < n - 1 { s.cursor + p } else { n - 1 }), KeyAction::Continue)
    } else if key == Key::Char('m') {
        (s, KeyAction::ToggleMute)
    } else if key == Key::Enter {
        (s, KeyAction::PlayCurrent)
    } else if key == Key::Char('*') || key == Key::Char('+') {
        (s, KeyAction::VolumeUp)
    } else if key == Key::Char('/') || key == Key::Char('-') {
        (s, KeyAction::VolumeDown)
    } else if key == Key::Char('?') {
        (AppView { show_help: true, ..s }, KeyAction::Continue)
    } else if key == Key::Char('y') {
        (s, KeyAction::CopyTrack)
    } else if key == Key::Char('r') && s.imports.len() > 0 {
        (AppView { refreshing: true, ..s }, KeyAction::Refresh)
    } else {
        (s, KeyAction::Continue)
    }
}

/// The prefix of the message for a failed player operation.
pub open spec fn failure_prefix(f: Failure) -> Seq<char> {
    match f {
        Failure::Mute => "Mute failed: "@,
        Failure::VolumeUp => "Volume up failed: "@,
        Failure::VolumeDown => "Volume down failed: "@,
    }
}

/// An error message for each text, in order, all made at `now_ns`.
pub open spec fn error_messages(errors: Seq<Seq<char>>, now_ns: u64) -> Seq<MessageView> {
    errors.map_values(|e: Seq<char>| MessageView { content: e, is_error: true, expires_ns: expiry_of(now_ns) })
}

/// The messages shown after the imports were read again: a confirmation
/// when every list was read, else each error; all made at `now_ns`.
pub open spec fn refresh_messages(errors: Seq<Seq<char>>, now_ns: u64) -> Seq<MessageView> {
    if errors.len() == 0 {
        seq![MessageView { content: "Remote station lists refreshed"@, is_error: false, expires_ns: expiry_of(now_ns) }]
    } else {
        error_messages(errors, now_ns)
    }
}

/// The first index of a station with URL `url`.
pub open spec fn first_with_url(list: Seq<StationView>, url: Seq<char>) -> Option<int> {
    if exists|i: int| 0 <= i < list.len() && #[trigger] list[i].url == url {
        Some(
            choose|i: int|
                0 <= i < list.len() && #[trigger] list[i].url == url && forall|j: int|
                    0 <= j < i ==> list[j].url != url,
        )
    } else {
        None
    }
}

/// Messages made from texts at `now_ns`, all errors.
fn error_list(errors: Vec<String>, now_ns: u64) -> (r: Vec<Message>)
    ensures
        message_views(r@) == error_messages(texts(errors@), now_ns),
{
    let mut out: Vec<Message> = Vec::new();
    let mut i: usize = 0;
    while i < errors.len()
        invariant
            i <= errors@.len(),
            message_views(out@) == error_messages(texts(errors@), now_ns).take(i as int),
        decreases errors.len() - i,
    {
        let ghost before = message_views(out@);
        let m = Message::error(errors[i].clone(), now_ns);
        out.push(m);
        assert(message_views(out@) =~= before.push(m@));
        assert(message_views(out@) =~= error_messages(texts(errors@), now_ns).take(i + 1));
        i = i + 1;
    }
    assert(error_messages(texts(errors@), now_ns).take(i as int) =~= error_messages(texts(errors@), now_ns));
    out
}

impl App {
    /// The application at start: the local stations merged with the
    /// imported ones, the cursor on the first station, nothing playing, one
    /// error message, made at `now_ns`, per import that could not be read.
    pub fn new(
        local_stations: Vec<Station>,
        remote_stations: Vec<Station>,
        imports: Vec<Import>,
        import_errors: Vec<String>,
        now_ns: u64,
    ) -> (app: App)
        ensures
            wf(app@),
            app@.local == views(local_stations@),
            stably_sorted(app@.stations, merge_input(views(local_stations@), views(remote_stations@))),
            app@.imports == import_views(imports@),
            app@.cursor == 0,
            app@.playing_index is None,
            app@.messages == error_messages(texts(import_errors@), now_ns),
            !app@.show_help,
            app@.width == 0 && app@.height == 0,
            !app@.refreshing,
    {
        let stations = merge_stations(clone_list(&local_stations), remote_stations);
        let messages = error_list(import_errors, now_ns);
        App {
            local_stations,
            stations,
            imports,
            cursor: 0,
            playing_index: None,
            messages,
            show_help: false,
            width: 0,
            height: 0,
            refreshing: false,
        }
    }

    /// Records the terminal's new size.
    pub fn resize(&mut self, width: u16, height: u16)
        ensures
            final(self)@ == (AppView { width, height, ..old(self)@ }),
    {
        proof {
            use_type_invariant(&*self);
        }
        self.width = width;
        self.height = height;
    }

    /// Drops the messages that have expired at `now_ns`, keeping the others
    /// in order.
    pub fn tick(&mut self, now_ns: u64)
        ensures
            final(self)@ == (AppView { messages: live_at(old(self)@.messages, now_ns), ..old(self)@ }),
    {
        proof {
            use_type_invariant(&*self);
        }
        let mut msgs: Vec<Message> = Vec::new();
        std::mem::swap(&mut msgs, &mut self.messages);
        self.messages = drop_expired(msgs, now_ns);
        assert(self@ == AppView { messages: live_at(old(self)@.messages, now_ns), ..old(self)@ });
    }

    /// How many stations one page key moves.
    pub fn page_height(&self) -> (r: usize)
        ensures
            r as int == page_rows(self@.height),
    {
        let h = self.height as usize;
        if h > 7 { h - 6 } else { 1 }
    }

    /// Handles a key press and says what else is to be done.
    pub fn handle_key(&mut self, key: Key) -> (action: KeyAction)
        requires
            !old(self)@.show_help && wraps_in_list(key) ==> old(self)@.stations.len() > 0,
        ensures
            (final(self)@, action) == key_outcome(old(self)@, key),
            wf(final(self)@),
    {
        proof {
            use_type_invariant(&*self);
        }
        let ghost s = self@;
        if self.show_help {
            if key == Key::Char('h') || key == Key::Esc {
                self.show_help = false;
            }
            return KeyAction::Continue;
        }
        let n = self.stations.len();
        if key == Key::Char('q') || key == Key::Esc {
            KeyAction::Quit
        } else if key == Key::Char('j') || key == Key::Down {
            if self.cursor < n - 1 {
                self.cursor = self.cursor + 1;
            } else {
                self.cursor = 0;
            }
            assert(self@ == with_cursor(s, self.cursor as int));
            KeyAction::Continue
        } else if key == Key::Char('k') || key == Key::Up {
            if self.cursor > 0 {
                self.cursor = self.cursor - 1;
            } else {
                self.cursor = n - 1;
            }
            assert(self@ == with_cursor(s, self.cursor as int));
            KeyAction::Continue
        } else if key == Key::Char('h') || key == Key::Left {
            let page = self.page_height();
            if self.cursor >= page {
                self.cursor = self.cursor - page;
            } else {
                self.cursor = 0;
            }
            assert(self@ == with_cursor(s, self.cursor as int));
            KeyAction::Continue
        } else if key == Key::Char('l') || key == Key::Right {
            let page = self.page_height();
            if page < n - 1 - self.cursor {
                self.cursor = self.cursor + page;
            } else {
                self.cursor = n - 1;
            }
            assert(self@ == with_cursor(s, self.cursor as int));
            KeyAction::Continue
        } else if key == Key::Char('m') {
            KeyAction::ToggleMute
        } else if key == Key::Enter {
            KeyAction::PlayCurrent
        } else if key == Key::Char('*') || key == Key::Char('+') {
            KeyAction::VolumeUp
        } else if key == Key::Char('/') || key == Key::Char('-') {
            KeyAction::VolumeDown
        } else if key == Key::Char('?') {
            self.show_help = true;
            KeyAction::Continue
        } else if key == Key::Char('y') {
            KeyAction::CopyTrack
        } else if key == Key::Char('r') && self.imports.len() > 0 {
            self.refreshing = true;
            KeyAction::Refresh
        } else {
            KeyAction::Continue
        }
    }

    /// The stations, in the order shown.
    pub fn stations(&self) -> (r: &[Station])
        ensures
            views(r@) == self@.stations,
    {
        self.stations.as_slice()
    }

    /// The position of the cursor.
    pub fn cursor(&self) -> (r: usize)
        ensures
            r as int == self@.cursor,
    {
        self.cursor
    }

    /// The position of the station that plays, if one does.
    pub fn playing_index(&self) -> (r: Option<usize>)
        ensures
            r == self@.playing_index,
    {
        self.playing_index
    }

    /// The messages shown.
    pub fn messages(&self) -> (r: &[Message])
        ensures
            message_views(r@) == self@.messages,
    {
        self.messages.as_slice()
    }

    /// Whether the help is shown.
    pub fn show_help(&self) -> (r: bool)
        ensures
            r == self@.show_help,
    {
        self.show_help
    }

    /// Whether any station lists are imported.
    pub fn has_imports(&self) -> (r: bool)
        ensures
            r == (self@.imports.len() > 0),
    {
        self.imports.len() > 0
    }

    /// Whether the imported lists are being read again.
    pub fn is_refreshing(&self) -> (r: bool)
        ensures
            r == self@.refreshing,
    {
        self.refreshing
    }

    /// The imported station lists.
    pub fn imports(&self) -> (r: Vec<Import>)
        ensures
            import_views(r@) == self@.imports,
    {
        clone_imports(&self.imports)
    }

    /// The station under the cursor.
    pub fn current_station(&self) -> (r: &Station)
        requires
            self@.stations.len() > 0,
        ensures
            r@ == self@.stations[self@.cursor],
    {
        proof {
            use_type_invariant(self);
        }
        &self.stations[self.cursor]
    }

    /// Records that the station under the cursor now plays.
    pub fn mark_playing(&mut self)
        requires
            old(self)@.stations.len() > 0,
        ensures
            final(self)@ == (AppView { playing_index: Some(old(self)@.cursor as usize), ..old(self)@ }),
            wf(final(self)@),
    {
        proof {
            use_type_invariant(&*self);
        }
        self.playing_index = Some(self.cursor);
    }

    /// Records that no station of the list plays.
    pub fn mark_stopped(&mut self)
        ensures
            final(self)@ == (AppView { playing_index: None, ..old(self)@ }),
    {
        proof {
            use_type_invariant(&*self);
        }
        self.playing_index = None;
    }

    fn push_message(&mut self, m: Message)
        ensures
            final(self)@ == (AppView { messages: old(self)@.messages.push(m@), ..old(self)@ }),
    {
        proof {
            use_type_invariant(&*self);
        }
        let mut msgs: Vec<Message> = Vec::new();
        std::mem::swap(&mut msgs, &mut self.messages);
        let ghost before = message_views(msgs@);
        msgs.push(m);
        assert(message_views(msgs@) =~= before.push(m@));
        self.messages = msgs;
    }

    fn push_errors(&mut self, errors: Vec<String>, now_ns: u64)
        ensures
            final(self)@ == (AppView {
                messages: old(self)@.messages + error_messages(texts(errors@), now_ns),
                ..old(self)@
            }),
    {
        let mut i: usize = 0;
        while i < errors.len()
            invariant
                i <= errors@.len(),
                self@ == (AppView {
                    messages: old(self)@.messages + error_messages(texts(errors@), now_ns).take(i as int),
                    ..old(self)@
                }),
            decreases errors.len() - i,
        {
            let ghost b = self@.messages;
            self.push_message(Message::error(errors[i].clone(), now_ns));
            assert(error_messages(texts(errors@), now_ns).take(i + 1) =~= error_messages(texts(errors@), now_ns).take(
                i as int,
            ).push(MessageView { content: errors@[i as int]@, is_error: true, expires_ns: expiry_of(now_ns) }));
            assert(old(self)@.messages + error_messages(texts(errors@), now_ns).take(i + 1) =~= b.push(
                MessageView { content: errors@[i as int]@, is_error: true, expires_ns: expiry_of(now_ns) },
            ));
            i = i + 1;
        }
        assert(error_messages(texts(errors@), now_ns).take(i as int) =~= error_messages(texts(errors@), now_ns));
    }

    /// Reports, at `now_ns`, that a player operation failed, with the
    /// error's text.
    pub fn report_failure(&mut self, failure: Failure, detail: &str, now_ns: u64)
        ensures
            final(self)@ == (AppView {
                messages: old(self)@.messages.push(
                    MessageView { content: failure_prefix(failure) + detail@, is_error: true, expires_ns: expiry_of(now_ns) },
                ),
                ..old(self)@
            }),
    {
        let mut text = match failure {
            Failure::Mute => String::from_str("Mute failed: "),
            Failure::VolumeUp => String::from_str("Volume up failed: "),
            Failure::VolumeDown => String::from_str("Volume down failed: "),
        };
        text.append(detail);
        self.push_message(Message::error(text, now_ns));
    }

    /// Starts copying the current track: says whether to put it on the
    /// clipboard, which is when there is a track and a clipboard; else
    /// reports why not, at `now_ns`.
    pub fn begin_copy(&mut self, track: &str, clipboard_available: bool, now_ns: u64) -> (attempt: bool)
        ensures
            attempt == (track@.len() > 0 && clipboard_available),
            final(self)@ == (AppView {
                messages: if track@.len() == 0 {
                    old(self)@.messages.push(
                        MessageView { content: "No song currently playing"@, is_error: true, expires_ns: expiry_of(now_ns) },
                    )
                } else if !clipboard_available {
                    old(self)@.messages.push(
                        MessageView { content: "Clipboard not available"@, is_error: true, expires_ns: expiry_of(now_ns) },
                    )
                } else {
                    old(self)@.messages
                },
                ..old(self)@
            }),
    {
        if track.is_empty() {
            self.push_message(Message::error(String::from_str("No song currently playing"), now_ns));
            false
        } else if !clipboard_available {
            self.push_message(Message::error(String::from_str("Clipboard not available"), now_ns));
            false
        } else {
            true
        }
    }

    /// Finishes copying the current track: confirms the copy, or reports
    /// the clipboard's error, at `now_ns`.
    pub fn end_copy(&mut self, track: &str, failure: Option<String>, now_ns: u64)
        ensures
            final(self)@ == (AppView {
                messages: old(self)@.messages.push(
                    match failure {
                        None => MessageView { content: "Copied: "@ + track@, is_error: false, expires_ns: expiry_of(now_ns) },
                        Some(e) => MessageView { content: "Copy failed: "@ + e@, is_error: true, expires_ns: expiry_of(now_ns) },
                    },
                ),
                ..old(self)@
            }),
    {
        match failure {
            None => {
                let mut text = String::from_str("Copied: ");
                text.append(track);
                self.push_message(Message::info(text, now_ns));
            },
            Some(e) => {
                let mut text = String::from_str("Copy failed: ");
                text.append(e.as_str());
                self.push_message(Message::error(text, now_ns));
            },
        }
    }

    /// Takes in the imported stations read again: merges them with the
    /// local ones, reports the outcome, and keeps the cursor and the
    /// playing station within the new list. The messages are made at
    /// `now_ns`.
    pub fn finish_refresh(&mut self, remote: Vec<Station>, errors: Vec<String>, now_ns: u64)
        ensures
            stably_sorted(final(self)@.stations, merge_input(old(self)@.local, views(remote@))),
            final(self)@.local == old(self)@.local,
            final(self)@.imports == old(self)@.imports,
            final(self)@.show_help == old(self)@.show_help,
            final(self)@.width == old(self)@.width,
            final(self)@.height == old(self)@.height,
            !final(self)@.refreshing,
            final(self)@.messages == old(self)@.messages + refresh_messages(texts(errors@), now_ns),
            final(self)@.playing_index == match old(self)@.playing_index {
                Some(i) => if i >= final(self)@.stations.len() { None } else { Some(i) },
                None => None,
            },
            final(self)@.cursor == if old(self)@.cursor >= final(self)@.stations.len()
                && final(self)@.stations.len() > 0 {
                final(self)@.stations.len() - 1
            } else {
                old(self)@.cursor
            },
            wf(final(self)@),
    {
        proof {
            use_type_invariant(&*self);
        }
        let stations = merge_stations(clone_list(&self.local_stations), remote);
        let n = stations.len();
        let playing = match self.playing_index {
            Some(idx) => if idx >= n { None } else { Some(idx) },
            None => None,
        };
        let cursor = if self.cursor >= n && n > 0 { n - 1 } else { self.cursor };
        self.cursor = 0;
        self.playing_index = None;
        self.stations = stations;
        self.cursor = cursor;
        self.playing_index = playing;
        self.refreshing = false;
        if errors.len() == 0 {
            self.push_message(Message::info(String::from_str("Remote station lists refreshed"), now_ns));
            assert(old(self)@.messages.push(
                MessageView { content: "Remote station lists refreshed"@, is_error: false, expires_ns: expiry_of(now_ns) },
            ) =~= old(self)@.messages + refresh_messages(texts(errors@), now_ns));
        } else {
            self.push_errors(errors, now_ns);
        }
    }

    /// Moves the cursor to the first station with URL `url`, if there is one.
    pub fn select_url(&mut self, url: &str) -> (found: bool)
        ensures
            found ==> {
                &&& final(self)@ == with_cursor(old(self)@, final(self)@.cursor)
                &&& 0 <= final(self)@.cursor < old(self)@.stations.len()
                &&& old(self)@.stations[final(self)@.cursor].url == url@
                &&& forall|j: int| 0 <= j < final(self)@.cursor ==> old(self)@.stations[j].url != url@
            },
            !found ==> final(self)@ == old(self)@ && forall|j: int|
                0 <= j < old(self)@.stations.len() ==> old(self)@.stations[j].url != url@,
            wf(final(self)@),
    {
        proof {
            use_type_invariant(&*self);
        }
        let target = String::from_str(url);
        let mut i: usize = 0;
        while i < self.stations.len()
            invariant
                i <= self.stations@.len(),
                self@ == old(self)@,
                wf(old(self)@),
                target@ == url@,
                forall|j: int| 0 <= j < i ==> self@.stations[j].url != url@,
            decreases self.stations.len() - i,
        {
            if self.stations[i].url == target {
                assert(self@.stations[i as int] == self.stations@[i as int]@);
                self.cursor = i;
                assert(self@ == with_cursor(old(self)@, i as int));
                return true;
            }
            assert(self@.stations[i as int] == self.stations@[i as int]@);
            i = i + 1;
        }
        false
    }

    /// Moves the cursor to the next station, from the last to the first;
    /// says whether there are stations at all.
    pub fn step_next(&mut self) -> (moved: bool)
        ensures
            moved == (old(self)@.stations.len() > 0),
            final(self)@ == if moved {
                with_cursor(
                    old(self)@,
                    if old(self)@.cursor >= old(self)@.stations.len() - 1 { 0 } else { old(self)@.cursor + 1 },
                )
            } else {
                old(self)@
            },
            wf(final(self)@),
    {
        proof {
            use_type_invariant(&*self);
        }
        let n = self.stations.len();
        if n == 0 {
            return false;
        }
        self.cursor = if self.cursor >= n - 1 { 0 } else { self.cursor + 1 };
        true
    }

    /// Moves the cursor to the previous station, from the first to the last;
    /// says whether there are stations at all.
    pub fn step_previous(&mut self) -> (moved: bool)
        ensures
            moved == (old(self)@.stations.len() > 0),
            final(self)@ == if moved {
                with_cursor(
                    old(self)@,
                    if old(self)@.cursor == 0 { old(self)@.stations.len() - 1 } else { old(self)@.cursor - 1 },
                )
            } else {
                old(self)@
            },
            wf(final(self)@),
    {
        proof {
            use_type_invariant(&*self);
        }
        let n = self.stations.len();
        if n == 0 {
            return false;
        }
        self.cursor = if self.cursor == 0 { n - 1 } else { self.cursor - 1 };
        true
    }
}


/// Every key keeps the state well-formed (keys that wrap within the list
/// are only handled with stations to move between).
pub proof fn law_keys_keep_wf(s: AppView, key: Key)
    requires
        wf(s),
        !s.show_help && wraps_in_list(key) ==> s.stations.len() > 0,
    ensures
        wf(key_outcome(s, key).0),
{
}

/// Moving down and then up returns the cursor to where it was.
pub proof fn law_down_then_up(s: AppView)
    requires
        wf(s),
        !s.show_help,
        s.stations.len() > 0,
    ensures
        key_outcome(key_outcome(s, Key::Down).0, Key::Up).0 == s,
{
    assert(key_outcome(key_outcome(s, Key::Down).0, Key::Up).0 =~= s);
}

/// Moving up and then down returns the cursor to where it was.
pub proof fn law_up_then_down(s: AppView)
    requires
        wf(s),
        !s.show_help,
        s.stations.len() > 0,
    ensures
        key_outcome(key_outcome(s, Key::Up).0, Key::Down).0 == s,
{
    assert(key_outcome(key_outcome(s, Key::Up).0, Key::Down).0 =~= s);
}

/// Moving down from the last station wraps to the first, and moving up
/// from the first wraps to the last.
pub proof fn law_cursor_wraps(s: AppView)
    requires
        wf(s),
        !s.show_help,
        s.stations.len() > 0,
    ensures
        s.cursor == s.stations.len() - 1 ==> key_outcome(s, Key::Down).0.cursor == 0,
        s.cursor == 0 ==> key_outcome(s, Key::Up).0.cursor == s.stations.len() - 1,
{
}

/// Showing the help and hiding it again changes nothing, and while the help
/// is shown no key but `h` or Escape changes anything or asks for anything.
pub proof fn law_help_overlay(s: AppView, key: Key)
    requires
        !s.show_help,
    ensures
        key_outcome(key_outcome(s, Key::Char('?')).0, Key::Esc).0 == s,
        key_outcome(key_outcome(s, Key::Char('?')).0, Key::Char('h')).0 == s,
        key != Key::Char('h') && key != Key::Esc ==> key_outcome(key_outcome(s, Key::Char('?')).0, key) == (
        key_outcome(s, Key::Char('?')).0, KeyAction::Continue),
{
    assert(key_outcome(key_outcome(s, Key::Char('?')).0, Key::Esc).0 =~= s);
    assert(key_outcome(key_outcome(s, Key::Char('?')).0, Key::Char('h')).0 =~= s);
}

/// Page moves keep the cursor within the list and never move it by more
/// than a page.
pub proof fn law_page_moves(s: AppView)
    requires
        wf(s),
        !s.show_help,
        s.stations.len() > 0,
    ensures
        0 <= key_outcome(s, Key::Left).0.cursor <= s.cursor,
        s.cursor - key_outcome(s, Key::Left).0.cursor <= page_rows(s.height),
        s.cursor <= key_outcome(s, Key::Right).0.cursor < s.stations.len(),
        key_outcome(s, Key::Right).0.cursor - s.cursor <= page_rows(s.height),
{
}

/// A page key moves the cursor by a whole page where there is room, and
/// otherwise to the end of the list: a page up from less than a page below
/// the first station lands on the first station, a page down from less than
/// a page above the last lands on the last.
pub proof fn law_page_keys_reach_the_ends(s: AppView)
    requires
        wf(s),
        !s.show_help,
        s.stations.len() > 0,
    ensures
        key_outcome(s, Key::Left).0.cursor == key_outcome(s, Key::Char('h')).0.cursor,
        key_outcome(s, Key::Right).0.cursor == key_outcome(s, Key::Char('l')).0.cursor,
        s.cursor < page_rows(s.height) ==> key_outcome(s, Key::Left).0.cursor == 0,
        s.cursor >= page_rows(s.height) ==> key_outcome(s, Key::Left).0.cursor == s.cursor - page_rows(s.height),
        s.cursor + page_rows(s.height) >= s.stations.len() - 1 ==> key_outcome(s, Key::Right).0.cursor
            == s.stations.len() - 1,
        s.cursor + page_rows(s.height) < s.stations.len() - 1 ==> key_outcome(s, Key::Right).0.cursor == s.cursor
            + page_rows(s.height),
        key_outcome(s, Key::Left).1 == KeyAction::Continue && key_outcome(s, Key::Right).1 == KeyAction::Continue,
        key_outcome(s, Key::Left).0 == with_cursor(s, key_outcome(s, Key::Left).0.cursor),
        key_outcome(s, Key::Right).0 == with_cursor(s, key_outcome(s, Key::Right).0.cursor),
{
}

} // verus!
