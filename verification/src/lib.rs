//! The verified core of Yapel, a desktop YouTube Music player.
use vstd::prelude::*;

pub mod browse;
pub mod commands;
pub mod endpoints;
pub mod header;
pub mod json;
pub mod lastfm;
pub mod mini;
pub mod pages;
pub mod percent;
pub mod player;
pub mod session;
pub mod text;
pub mod tray;

verus! {

/// The main window's close button hides it to the tray only when the user turned that on
/// (`close_to_tray` = `true`); a fresh install quits.
pub fn close_hides(setting: Option<&str>) -> (r: bool)
    ensures
        r == (match setting { Some(s) => s@ == "true"@, None => false }),
{
    match setting {
        Some(s) => text::str_eq(s, "true"),
        None => false,
    }
}

/// What a close request on a window leads to.
#[derive(Debug, Clone, Copy, PartialEq, Eq, Structural)]
pub enum CloseAction {
    /// Keep the window, hidden: playback goes on in the tray.
    Hide,
    /// Keep the window and bring the main window back instead (the mini player).
    ShowMain,
    /// Let it close.
    Close,
}

/// A close request: the main window hides when the user turned close-to-tray on; the mini
/// player never closes on its own (that would leave the app running with no window at all) and
/// goes back to the main window; any other window (the hidden helper webviews) closes normally.
pub fn close_action(label: &str, close_to_tray: Option<&str>) -> (r: CloseAction)
    ensures
        r == (if label@ == "main"@ {
            if (match close_to_tray { Some(s) => s@ == "true"@, None => false }) { CloseAction::Hide } else { CloseAction::Close }
        } else if label@ == mini::LABEL@ {
            CloseAction::ShowMain
        } else {
            CloseAction::Close
        }),
{
    if text::str_eq(label, "main") {
        if close_hides(close_to_tray) { CloseAction::Hide } else { CloseAction::Close }
    } else if text::str_eq(label, mini::LABEL) {
        CloseAction::ShowMain
    } else {
        CloseAction::Close
    }
}

/// The app quits when the main window is destroyed (the hidden helper webviews are windows too,
/// so the last window closing is not the signal).
pub fn exits_on_destroyed(label: &str) -> (r: bool)
    ensures
        r == (label@ == "main"@),
{
    text::str_eq(label, "main")
}

/// The Listen Together server when none is configured.
pub const DEFAULT_LT_SERVER_URL: &'static str = "wss://fedora-1.tail9c4985.ts.net/ws";

/// The Listen Together server: the stored setting when it is non-empty, else the default.
pub fn lt_server_url(setting: Option<String>) -> (r: String)
    ensures
        r@ == (match setting {
            Some(u) => if u@.len() > 0 { u@ } else { DEFAULT_LT_SERVER_URL@ },
            None => DEFAULT_LT_SERVER_URL@,
        }),
{
    match setting {
        Some(u) => if !u.as_str().is_empty() { u } else { text::owned(DEFAULT_LT_SERVER_URL) },
        None => text::owned(DEFAULT_LT_SERVER_URL),
    }
}

/// A stored setting that counts only when it is non-empty (the session cookie, the visitor
/// data, the Last.fm session key).
pub fn non_empty_setting(setting: Option<String>) -> (r: Option<String>)
    ensures
        r == (match setting {
            Some(v) => if v@.len() > 0 { Some(v) } else { None },
            None => None,
        }),
{
    match setting {
        Some(v) => if !v.as_str().is_empty() { Some(v) } else { None },
        None => None,
    }
}

/// A stored on/off setting: on only when it is exactly `true`.
pub fn setting_on(setting: Option<&str>) -> (r: bool)
    ensures
        r == (match setting { Some(s) => s@ == "true"@, None => false }),
{
    match setting {
        Some(s) => text::str_eq(s, "true"),
        None => false,
    }
}

/// The `playback-state` event's payload.
pub fn playback_state(playing: bool) -> (r: &'static str)
    ensures
        r@ == (if playing { "playing"@ } else { "paused"@ }),
{
    if playing { "playing" } else { "paused" }
}

/// The renderer workarounds to set as environment variables before WebKitGTK starts, on Linux:
/// NVIDIA's explicit sync off unless the user already chose (harmless elsewhere); and, inside an
/// AppImage on an NVIDIA machine, the DMABUF renderer off unless the user already chose or asked
/// to keep the GPU path.
pub fn webkit_env(
    explicit_sync_set: bool,
    in_appimage: bool,
    nvidia: bool,
    dmabuf_set: bool,
    force_gpu: bool,
) -> (r: Vec<(&'static str, &'static str)>)
    ensures
        r@.len() == (if !explicit_sync_set { 1int } else { 0int })
            + (if in_appimage && nvidia && !dmabuf_set && !force_gpu { 1int } else { 0int }),
        !explicit_sync_set ==> r@[0].0@ == "__NV_DISABLE_EXPLICIT_SYNC"@ && r@[0].1@ == "1"@,
        in_appimage && nvidia && !dmabuf_set && !force_gpu ==> r@.last().0@ == "WEBKIT_DISABLE_DMABUF_RENDERER"@
            && r@.last().1@ == "1"@,
{
    let mut env: Vec<(&'static str, &'static str)> = Vec::new();
    if !explicit_sync_set {
        env.push(("__NV_DISABLE_EXPLICIT_SYNC", "1"));
    }
    if in_appimage && nvidia && !dmabuf_set && !force_gpu {
        env.push(("WEBKIT_DISABLE_DMABUF_RENDERER", "1"));
    }
    env
}

} // verus!
