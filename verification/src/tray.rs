//! The tray: its menu, what each entry does, and the icon in the byte order the status notifier
//! wants.
use vstd::prelude::*;

use crate::text::{owned, str_eq};

verus! {

/// The tray item's id.
pub const TRAY_ID: &'static str = "limusic";
/// The tray item's title and tooltip.
pub const TRAY_TITLE: &'static str = "Yapel";

/// What a menu entry does. Menu ids are the contract between the two tray backends.
#[derive(Debug, Clone, Copy, PartialEq, Eq, Structural)]
pub enum MenuAction {
    /// Bring the main window back.
    Show,
    /// Save the exact resume position and the widget's position, then exit.
    Quit,
    PlayPause,
    Next,
    Previous,
    /// An id nobody handles.
    Ignore,
}

/// The action behind a menu id.
pub fn menu_action(id: &str) -> (r: MenuAction)
    ensures
        r == (if id@ == "show"@ { MenuAction::Show } else if id@ == "quit"@ { MenuAction::Quit }
            else if id@ == "play_pause"@ { MenuAction::PlayPause } else if id@ == "next"@ { MenuAction::Next }
            else if id@ == "prev"@ { MenuAction::Previous } else { MenuAction::Ignore }),
{
    if str_eq(id, "show") {
        MenuAction::Show
    } else if str_eq(id, "quit") {
        MenuAction::Quit
    } else if str_eq(id, "play_pause") {
        MenuAction::PlayPause
    } else if str_eq(id, "next") {
        MenuAction::Next
    } else if str_eq(id, "prev") {
        MenuAction::Previous
    } else {
        MenuAction::Ignore
    }
}

/// The play/pause entry's label: what clicking it will do.
pub fn play_pause_label(playing: bool) -> (r: &'static str)
    ensures
        r@ == (if playing { "Pause"@ } else { "Play"@ }),
{
    if playing { "Pause" } else { "Play" }
}

/// The menu, top to bottom: `Some((label, id))` for an entry, `None` for a separator.
pub open spec fn menu_of(playing: bool) -> Seq<Option<(Seq<char>, Seq<char>)>> {
    seq![
        Some(("Show Yapel"@, "show"@)),
        None,
        Some((if playing { "Pause"@ } else { "Play"@ }, "play_pause"@)),
        Some(("Next"@, "next"@)),
        Some(("Previous"@, "prev"@)),
        None,
        Some(("Quit"@, "quit"@)),
    ]
}

pub open spec fn menu_view(m: Seq<Option<(String, String)>>) -> Seq<Option<(Seq<char>, Seq<char>)>> {
    m.map_values(|e: Option<(String, String)>| match e {
        Some(p) => Some((p.0@, p.1@)),
        None => None,
    })
}

fn entry(label: &str, id: &str) -> (r: Option<(String, String)>)
    ensures
        r matches Some(p) && p.0@ == label@ && p.1@ == id@,
{
    Some((owned(label), owned(id)))
}

/// The tray menu for the current play state.
pub fn menu(playing: bool) -> (r: Vec<Option<(String, String)>>)
    ensures
        menu_view(r@) == menu_of(playing),
{
    let m = vec![
        entry("Show Yapel", "show"),
        None,
        entry(play_pause_label(playing), "play_pause"),
        entry("Next", "next"),
        entry("Previous", "prev"),
        None,
        entry("Quit", "quit"),
    ];
    assert(menu_view(m@) =~= menu_of(playing));
    m
}

/// Each whole 4-byte pixel turned from `[R,G,B,A]` to `[A,R,G,B]`; a trailing partial pixel, if
/// any, left as it is.
pub open spec fn argb_of(rgba: Seq<u8>) -> Seq<u8> {
    Seq::new(rgba.len(), |i: int|
        if i < rgba.len() - rgba.len() % 4 {
            if i % 4 == 0 { rgba[i + 3] } else { rgba[i - 1] }
        } else {
            rgba[i]
        })
}

/// The icon's pixels as the status notifier wants them: Tauri hands over RGBA, StatusNotifierItem
/// takes ARGB32 in network byte order.
pub fn rgba_to_argb(rgba: Vec<u8>) -> (r: Vec<u8>)
    ensures
        r@ == argb_of(rgba@),
{
    let mut data = rgba;
    let ghost orig = data@;
    let n = data.len();
    let whole = n - n % 4;
    let mut i: usize = 0;
    while i < whole
        invariant
            n == orig.len(),
            data@.len() == n,
            whole == n - n % 4,
            i % 4 == 0,
            0 <= i <= whole,
            forall|k: int| 0 <= k < i ==> #[trigger] data@[k] == argb_of(orig)[k],
            forall|k: int| i <= k < n ==> #[trigger] data@[k] == orig[k],
        decreases whole - i,
    {
        let r = data[i];
        let g = data[i + 1];
        let b = data[i + 2];
        let a = data[i + 3];
        data.set(i, a);
        data.set(i + 1, r);
        data.set(i + 2, g);
        data.set(i + 3, b);
        assert((i + 1) % 4 == 1 && (i + 2) % 4 == 2 && (i + 3) % 4 == 3);
        i = i + 4;
    }
    assert(data@ =~= argb_of(orig));
    data
}

} // verus!
