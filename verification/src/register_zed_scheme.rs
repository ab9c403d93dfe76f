//! Which application handles `zed://` links.

use vstd::prelude::*;

verus! {

/// The scheme of the links that the application handles.
pub const ZED_URL_SCHEME: &'static str = "zed";

/// The scheme to register with the system. The tmux build registers none: it leaves the links to
/// the standard application, which it stands beside.
pub fn register_zed_scheme(is_zed_tmux_build: bool) -> (scheme: Option<&'static str>)
    ensures
        match scheme {
            Some(scheme) => !is_zed_tmux_build && scheme@ == ZED_URL_SCHEME@,
            None => is_zed_tmux_build,
        },
{
    if is_zed_tmux_build {
        return None;
    }
    Some(ZED_URL_SCHEME)
}

} // verus!
