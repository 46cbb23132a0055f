//! Emergency switches: either listener can be turned off through an
//! environment variable without uninstalling the companion. A variable that
//! is set to a non-empty value disables its listener; removing it, or setting
//! it to nothing, enables the listener again.

use vstd::prelude::*;

verus! {

/// Turns the toast-notification listener off.
pub const DISABLE_NOTIFICATION_LISTENER_VAR: &'static str = "KEFILEX_DESK_DISABLE_NOTIFICATION_LISTENER";

/// Turns the audio-session listener off.
pub const DISABLE_AUDIO_LISTENER_VAR: &'static str = "KEFILEX_DESK_DISABLE_AUDIO_LISTENER";

/// Whether a switch variable with this value (`None` when unset) disables
/// its listener.
pub fn switch_disables(value: Option<&str>) -> (r: bool)
    ensures
        r == (value matches Some(v) && v@.len() > 0),
{
    match value {
        Some(v) => !v.is_empty(),
        None => false,
    }
}

} // verus!
