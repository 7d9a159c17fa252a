//! The per-user directories the tray reads from and writes to.
//!
//! Where they are depends on the environment the process runs in, so nothing
//! is promised of what these calls return; the functions that use them state
//! what they build from whatever came back.

use vstd::prelude::*;

verus! {

/// Calls `dirs::config_dir` (`$XDG_CONFIG_HOME`, else `~/.config`). A path
/// that is not valid UTF-8 reads as absent. Nothing is stated of the result:
/// it depends on the environment.
#[verifier::external_body]
pub(crate) fn config_dir() -> Option<String> {
    match dirs::config_dir() {
        Some(path) => path.into_os_string().into_string().ok(),
        None => None,
    }
}

/// Calls `dirs::state_dir` (`$XDG_STATE_HOME`, else `~/.local/state`). A path
/// that is not valid UTF-8 reads as absent. Nothing is stated of the result:
/// it depends on the environment.
#[verifier::external_body]
pub(crate) fn state_dir() -> Option<String> {
    match dirs::state_dir() {
        Some(path) => path.into_os_string().into_string().ok(),
        None => None,
    }
}

/// Calls `dirs::cache_dir` (`$XDG_CACHE_HOME`, else `~/.cache`). A path that
/// is not valid UTF-8 reads as absent. Nothing is stated of the result: it
/// depends on the environment.
#[verifier::external_body]
pub(crate) fn cache_dir() -> Option<String> {
    match dirs::cache_dir() {
        Some(path) => path.into_os_string().into_string().ok(),
        None => None,
    }
}

} // verus!
