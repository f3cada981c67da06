//! Arithmetic of the screen layout: which stations are in view, and the
//! sizes of the message panel, the help popup and the compact window.

use vstd::prelude::*;
use crate::text::{decimal, decimal_text};

verus! {

/// The first station shown in a list of `len` stations, `page` rows high,
/// with the cursor at `cursor`: the top while the cursor is on the first
/// page, else half a page above the cursor, but no further down than the
/// last full page.
pub open spec fn scroll_offset_of(cursor: int, page: int, len: int) -> int {
    if cursor >= page {
        let a = cursor - page / 2;
        let b = if len > page { len - page } else { 0 };
        if a < b { a } else { b }
    } else {
        0
    }
}

/// The first station shown in the list.
pub fn scroll_offset(cursor: usize, page: usize, len: usize) -> (r: usize)
    ensures
        r as int == scroll_offset_of(cursor as int, page as int, len as int),
{
    if cursor >= page {
        let a = cursor - page / 2;
        let b = len.saturating_sub(page);
        if a < b { a } else { b }
    } else {
        0
    }
}

/// The station under the cursor is always in view.
pub proof fn law_cursor_in_view(cursor: int, page: int, len: int)
    requires
        0 <= cursor < len,
        page > 0,
    ensures
        0 <= scroll_offset_of(cursor, page, len) <= cursor < scroll_offset_of(cursor, page, len) + page,
{
}

/// How many rows of stations the list shows: its height less the border
/// and padding.
pub fn list_rows(area_height: u16) -> (r: usize)
    ensures
        r as int == if area_height >= 2 { area_height - 2 } else { 0 },
{
    area_height.saturating_sub(2) as usize
}

/// The height of the message panel: none without messages, else a row per
/// message (and one while the imports are read) plus the border, the row
/// count cut to 16 bits.
pub open spec fn message_panel_rows(count: int, refreshing: bool) -> int {
    let n = count + if refreshing { 1int } else { 0 };
    if n == 0 { 0 } else { (n as u16) + 2 }
}

/// The height of the message panel.
pub fn message_panel_height(count: usize, refreshing: bool) -> (r: u16)
    requires
        count + (if refreshing { 1int } else { 0 }) <= usize::MAX,
        ((count + (if refreshing { 1int } else { 0 })) as u16) + 2 <= u16::MAX,
    ensures
        r as int == message_panel_rows(count as int, refreshing),
{
    let n = count + if refreshing { 1 } else { 0 };
    if n == 0 {
        0
    } else {
        #[verifier::truncate]
        let t = n as u16;
        t + 2
    }
}

/// A rectangle: column, row, width and height.
pub struct Area {
    pub x: u16,
    pub y: u16,
    pub width: u16,
    pub height: u16,
}

/// The help popup: 65 columns and 18 rows (20 with imports), no larger than
/// the screen, centred.
pub fn help_popup_area(width: u16, height: u16, has_imports: bool) -> (r: Area)
    ensures
        r.width == if width < 65 { width } else { 65 },
        r.height == if has_imports {
            if height < 20 { height } else { 20 }
        } else {
            if height < 18 { height } else { 18 }
        },
        r.x == (width - r.width) / 2,
        r.y == (height - r.height) / 2,
        r.x + r.width <= width,
        r.y + r.height <= height,
{
    let pw: u16 = if width < 65 { width } else { 65 };
    let full: u16 = if has_imports { 20 } else { 18 };
    let ph: u16 = if height < full { height } else { full };
    Area { x: (width - pw) / 2, y: (height - ph) / 2, width: pw, height: ph }
}

/// The header's row inside its bordered area: one row down and one column
/// in, two columns narrower, one row high.
pub fn header_row(area: &Area) -> (r: Area)
    requires
        area.x < u16::MAX,
        area.y < u16::MAX,
    ensures
        r.x == area.x + 1,
        r.y == area.y + 1,
        r.width == if area.width >= 2 { area.width - 2 } else { 0 },
        r.height == 1,
{
    Area { x: area.x + 1, y: area.y + 1, width: area.width.saturating_sub(2), height: 1 }
}

/// The widths of the header's three columns: the playing station's label,
/// the track, and the volume label; the labels are as wide as their text's
/// length in bytes (cut to 16 bits), and the track takes the rest.
pub fn header_columns(row_width: u16, station_bytes: usize, volume_bytes: usize) -> (r: (u16, u16, u16))
    requires
        (station_bytes as u16) + (volume_bytes as u16) <= u16::MAX,
    ensures
        r.0 == station_bytes as u16,
        r.2 == volume_bytes as u16,
        r.1 == if row_width >= r.0 + r.2 { row_width - r.0 - r.2 } else { 0 },
{
    #[verifier::truncate]
    let status: u16 = station_bytes as u16;
    #[verifier::truncate]
    let volume: u16 = volume_bytes as u16;
    let track = row_width.saturating_sub(status + volume);
    (status, track, volume)
}

/// The height of the compact window: half the screen, between 10 and 20
/// rows.
pub fn compact_height(screen_height: u16) -> (r: u16)
    ensures
        r == if screen_height / 2 < 10 { 10 } else if screen_height / 2 > 20 { 20 } else { screen_height / 2 },
        10 <= r <= 20,
{
    let h = screen_height / 2;
    if h < 10 { 10 } else if h > 20 { 20 } else { h }
}

/// The label naming what plays: the station's name with a space on each
/// side, or ` Not Playing `.
pub fn station_label(playing: Option<&String>) -> (r: String)
    ensures
        r@ == match playing {
            Some(name) => " "@ + name@ + " "@,
            None => " Not Playing "@,
        },
{
    match playing {
        Some(name) => {
            let mut r = String::from_str(" ");
            r.append(name.as_str());
            r.append(" ");
            r
        },
        None => String::from_str(" Not Playing "),
    }
}

/// The tag after a station's name that says where it comes from, shown
/// when imports are configured: ` [local]` or ` [import name]`.
pub open spec fn source_tag_text(source: Seq<char>, has_imports: bool) -> Seq<char> {
    if has_imports {
        " ["@ + source + "]"@
    } else {
        Seq::empty()
    }
}

/// The source tag of a station in the list, empty without imports.
pub fn source_tag(source: &str, has_imports: bool) -> (r: String)
    ensures
        r@ == source_tag_text(source@, has_imports),
{
    if has_imports {
        let mut r = String::from_str(" [");
        r.append(source);
        r.append("]");
        r
    } else {
        let r = String::new();
        assert(r@ =~= Seq::<char>::empty());
        r
    }
}

/// How a row of the station list is emphasised.
#[derive(PartialEq, Eq, Structural, Clone, Copy, Debug)]
pub enum RowEmphasis {
    /// The playing station under the cursor.
    PlayingSelected,
    /// The playing station elsewhere.
    Playing,
    /// The station under the cursor, not playing.
    Selected,
    /// Any other station.
    Plain,
}

/// The emphasis of a row: playing and under the cursor, playing, under
/// the cursor, or neither.
pub fn row_emphasis(is_selected: bool, is_playing: bool) -> (r: RowEmphasis)
    ensures
        r == if is_playing && is_selected {
            RowEmphasis::PlayingSelected
        } else if is_playing {
            RowEmphasis::Playing
        } else if is_selected {
            RowEmphasis::Selected
        } else {
            RowEmphasis::Plain
        },
{
    if is_playing && is_selected {
        RowEmphasis::PlayingSelected
    } else if is_playing {
        RowEmphasis::Playing
    } else if is_selected {
        RowEmphasis::Selected
    } else {
        RowEmphasis::Plain
    }
}

/// The mark before a station's name: an arrow under the cursor, blanks
/// elsewhere.
pub fn row_prefix(is_selected: bool) -> (r: &'static str)
    ensures
        r@ == if is_selected { "\u{25b6} "@ } else { "  "@ },
{
    if is_selected { "\u{25b6} " } else { "  " }
}

/// The mark after an imported station's name: a cloud; none for a local
/// station.
pub fn remote_mark(is_remote: bool) -> (r: &'static str)
    ensures
        r@ == if is_remote { " \u{2601}"@ } else { ""@ },
{
    if is_remote { " \u{2601}" } else { "" }
}

/// The volume label: ` Muted(v) ` or ` Vol v `.
pub fn volume_label(volume: i64, muted: bool) -> (r: String)
    ensures
        r@ == if muted {
            " Muted("@ + decimal(volume as int) + ") "@
        } else {
            " Vol "@ + decimal(volume as int) + " "@
        },
{
    let v = decimal_text(volume);
    if muted {
        let mut r = String::from_str(" Muted(");
        r.append(v.as_str());
        r.append(") ");
        r
    } else {
        let mut r = String::from_str(" Vol ");
        r.append(v.as_str());
        r.append(" ");
        r
    }
}

/// The key hints of the bottom bar, each a key and what it does.
pub open spec fn shortcut_list(has_imports: bool) -> Seq<(Seq<char>, Seq<char>)> {
    let base = seq![
        ("?"@, "Help"@),
        ("Enter"@, "Play"@),
        ("m"@, "Mute"@),
        ("*/+"@, "Vol+"@),
        ("-//"@, "Vol-"@),
    ];
    if has_imports {
        base + seq![("r"@, "Refresh"@), ("q"@, "Quit"@)]
    } else {
        base + seq![("q"@, "Quit"@)]
    }
}

/// The key hints of the bottom bar: help, play, mute, volume, then refresh
/// when there are imports, then quit.
pub fn shortcuts(has_imports: bool) -> (r: Vec<(&'static str, &'static str)>)
    ensures
        r@.map_values(|p: (&'static str, &'static str)| (p.0@, p.1@)) == shortcut_list(has_imports),
{
    let mut r: Vec<(&'static str, &'static str)> = Vec::new();
    r.push(("?", "Help"));
    r.push(("Enter", "Play"));
    r.push(("m", "Mute"));
    r.push(("*/+", "Vol+"));
    r.push(("-//", "Vol-"));
    if has_imports {
        r.push(("r", "Refresh"));
    }
    r.push(("q", "Quit"));
    assert(r@.map_values(|p: (&'static str, &'static str)| (p.0@, p.1@)) =~= shortcut_list(has_imports));
    r
}

} // verus!
