//! Decisions of the command line: which editor opens the configuration,
//! and whether there is anything to play.

use vstd::prelude::*;

verus! {

/// The editor to use: `RADIOBOAT_EDITOR` when set, else `EDITOR`, else
/// `nano`.
pub fn choose_editor(radioboat_editor: Option<String>, editor: Option<String>) -> (r: String)
    ensures
        r@ == match radioboat_editor {
            Some(e) => e@,
            None => match editor {
                Some(e) => e@,
                None => "nano"@,
            },
        },
{
    match radioboat_editor {
        Some(e) => e,
        None => match editor {
            Some(e) => e,
            None => String::from_str("nano"),
        },
    }
}

/// Whether the configuration names nothing to play: no local stations and
/// no imports.
pub fn nothing_configured(local_count: usize, import_count: usize) -> (r: bool)
    ensures
        r == (local_count == 0 && import_count == 0),
{
    local_count == 0 && import_count == 0
}

/// Whether no station is left after the imports were read: no local and no
/// imported stations.
pub fn nothing_to_play(local_count: usize, remote_count: usize) -> (r: bool)
    ensures
        r == (local_count == 0 && remote_count == 0),
{
    local_count == 0 && remote_count == 0
}

} // verus!
