//! The text, image and link fields of the page headers and shelves: a text field's runs joined,
//! a node's largest thumbnail, the home feed's filter chips, a carousel's title and "More"
//! target, an album's description, and the artist page's "Show all" playlist.
use vstd::prelude::*;

use crate::browse::{
    browse_target, continuation_token, continuation_token_of, kind_from_id, playlist_header, playlist_header_of,
    shelf_continuation, shelf_continuation_of, sort_menu, sort_menu_of, target_id, HomeChip, PlaylistContinuation,
    PlaylistPage, SongItem,
};
use crate::json::{
    find_all, find_first, first_of, get, get_member, get_member_opt, get_opt, lemma_items_view, opt_view,
    str_value, under, views, Json, JsonV,
};
use crate::text::{is_prefix, owned, push_str, starts_with};

verus! {

/// An optional string as a value.
pub open spec fn opt_chars(o: Option<String>) -> Option<Seq<char>> {
    match o {
        Some(s) => Some(s@),
        None => None,
    }
}

/// The text one run carries (none when its `text` is not a string).
pub open spec fn run_text(run: JsonV) -> Seq<char> {
    match str_value(get(run, "text"@)) {
        Some(t) => t,
        None => Seq::empty(),
    }
}

/// The runs' texts, joined in order.
pub open spec fn runs_joined(runs: Seq<JsonV>) -> Seq<char>
    decreases runs.len(),
{
    if runs.len() == 0 {
        Seq::empty()
    } else {
        runs_joined(runs.drop_last()) + run_text(runs.last())
    }
}

/// A text field `{ runs: [...] }` as one string: its runs joined, when it has runs and they say
/// something.
pub open spec fn runs_text_of(v: Option<JsonV>) -> Option<Seq<char>> {
    match get_opt(v, "runs"@) {
        Some(JsonV::Array(runs)) => if runs_joined(runs).len() > 0 { Some(runs_joined(runs)) } else { None },
        _ => None,
    }
}

/// A text field `{ runs: [...] }` as one string.
pub fn runs_text(v: Option<&Json>) -> (r: Option<String>)
    ensures
        opt_chars(r) == runs_text_of(opt_view(v)),
{
    let runs = match get_member_opt(v, "runs") {
        Some(Json::Array(items)) => items,
        _ => {
            return None;
        },
    };
    proof {
        lemma_items_view(runs@);
    }
    let ghost vs = crate::json::items_view(runs@);
    assert(json_array_view(runs) == JsonV::Array(vs));
    let mut s = String::new();
    let mut i: usize = 0;
    assert(vs.take(0) =~= Seq::<JsonV>::empty());
    while i < runs.len()
        invariant
            0 <= i <= runs@.len(),
            vs == crate::json::items_view(runs@),
            vs.len() == runs@.len(),
            forall|k: int| 0 <= k < runs@.len() ==> #[trigger] vs[k] == crate::json::json_view(runs@[k]),
            s@ == runs_joined(vs.take(i as int)),
        decreases runs@.len() - i,
    {
        assert(vs.take(i + 1).drop_last() =~= vs.take(i as int));
        assert(vs.take(i + 1).last() == vs[i as int]);
        match crate::json::as_str(get_member(&runs[i], "text")) {
            Some(t) => push_str(&mut s, t.as_str()),
            None => {},
        }
        i = i + 1;
    }
    assert(vs.take(runs@.len() as int) =~= vs);
    if s.as_str().is_empty() {
        None
    } else {
        Some(s)
    }
}

spec fn json_array_view(items: &Vec<Json>) -> JsonV {
    crate::json::json_view(Json::Array(*items))
}

/// The largest thumbnail of a node: the `url` of the last entry of the first `thumbnails` list
/// found in it (YouTube lists a thumbnail's sizes smallest first).
pub open spec fn last_thumbnail_of(node: JsonV) -> Option<Seq<char>> {
    match first_of(under(node, "thumbnails"@)) {
        Some(JsonV::Array(sizes)) => if sizes.len() > 0 { str_value(get(sizes.last(), "url"@)) } else { None },
        _ => None,
    }
}

/// The largest thumbnail of a node.
pub fn last_thumbnail(node: &Json) -> (r: Option<String>)
    ensures
        opt_chars(r) == last_thumbnail_of(node@),
{
    match find_first(node, "thumbnails") {
        Some(Json::Array(sizes)) => {
            proof {
                lemma_items_view(sizes@);
            }
            let n = sizes.len();
            if n == 0 {
                return None;
            }
            match crate::json::as_str(get_member(&sizes[n - 1], "url")) {
                Some(u) => Some(u.clone()),
                None => None,
            }
        },
        _ => None,
    }
}

/// A text field that is either `{ simpleText }` or `{ runs: [...] }`.
pub open spec fn text_or_runs_of(v: Option<JsonV>) -> Option<Seq<char>> {
    match v {
        None => None,
        Some(j) => match str_value(get(j, "simpleText"@)) {
            Some(t) => Some(t),
            None => runs_text_of(Some(j)),
        },
    }
}

/// A text field that is either `{ simpleText }` or `{ runs: [...] }`.
pub fn text_or_runs(v: Option<&Json>) -> (r: Option<String>)
    ensures
        opt_chars(r) == text_or_runs_of(opt_view(v)),
{
    let j = match v {
        Some(j) => j,
        None => {
            return None;
        },
    };
    match crate::json::as_str(get_member(j, "simpleText")) {
        Some(t) => Some(t.clone()),
        None => runs_text(Some(j)),
    }
}

// --- the home feed's filter chips -------------------------------------------------------------

/// A chip as a value: its title and the `params` that ask for its feed.
pub open spec fn chip_view(c: HomeChip) -> (Seq<char>, Seq<char>) {
    (c.title@, c.params@)
}

/// A `chipCloudChipRenderer` as a chip: its text and the `params` of its browse endpoint, when it
/// has both (the "clear filter" chip navigates nowhere and is no chip).
pub open spec fn chip_of(c: JsonV) -> Option<(Seq<char>, Seq<char>)> {
    match runs_text_of(get(c, "text"@)) {
        None => None,
        Some(t) => match str_value(get_opt(get_opt(get(c, "navigationEndpoint"@), "browseEndpoint"@), "params"@)) {
            Some(p) => Some((t, p)),
            None => None,
        },
    }
}

/// The chips among these nodes, in order.
pub open spec fn chips_of(cs: Seq<JsonV>) -> Seq<(Seq<char>, Seq<char>)>
    decreases cs.len(),
{
    if cs.len() == 0 {
        Seq::empty()
    } else {
        chips_of(cs.drop_last()) + match chip_of(cs.last()) {
            Some(c) => seq![c],
            None => Seq::empty(),
        }
    }
}

/// The home feed keeps every chip that has a title and a feed to open, in order, and no other.
pub proof fn law_home_chips(cs: Seq<JsonV>)
    ensures
        chips_of(cs) == cs.filter(|c: JsonV| chip_of(c) is Some).map_values(|c: JsonV| chip_of(c)->0),
    decreases cs.len(),
{
    let f = |c: JsonV| chip_of(c)->0;
    let p = |c: JsonV| chip_of(c) is Some;
    if cs.len() == 0 {
        assert(cs.filter(p) =~= Seq::<JsonV>::empty()) by {
            reveal(Seq::filter);
        }
        assert(cs.filter(p).map_values(f) =~= Seq::<(Seq<char>, Seq<char>)>::empty());
    } else {
        law_home_chips(cs.drop_last());
        assert(cs =~= cs.drop_last().push(cs.last()));
        cs.drop_last().lemma_filter_push(cs.last(), p);
        if p(cs.last()) {
            assert(cs.filter(p).map_values(f) =~= cs.drop_last().filter(p).map_values(f).push(f(cs.last())));
        }
    }
}

/// The home feed's filter chips: every `chipCloudChipRenderer` that names a feed, in document
/// order.
pub fn home_chips(root: &Json) -> (r: Vec<HomeChip>)
    ensures
        r@.map_values(|c: HomeChip| chip_view(c)) == chips_of(under(root@, "chipCloudChipRenderer"@)),
{
    let all = find_all(root, "chipCloudChipRenderer");
    let ghost vs = views(all@);
    let mut out: Vec<HomeChip> = Vec::new();
    let mut i: usize = 0;
    assert(vs.take(0) =~= Seq::<JsonV>::empty());
    while i < all.len()
        invariant
            0 <= i <= all@.len(),
            vs == views(all@),
            out@.map_values(|c: HomeChip| chip_view(c)) == chips_of(vs.take(i as int)),
        decreases all@.len() - i,
    {
        let c = all[i];
        assert(vs.take(i + 1).drop_last() =~= vs.take(i as int));
        assert(vs.take(i + 1).last() == c@);
        let ghost before = out@;
        let title = runs_text(get_member(c, "text"));
        let nav = get_member(c, "navigationEndpoint");
        let params = crate::json::as_str(get_member_opt(get_member_opt(nav, "browseEndpoint"), "params"));
        match (title, params) {
            (Some(t), Some(p)) => {
                out.push(HomeChip { title: t, params: p.clone() });
                assert(out@.map_values(|c: HomeChip| chip_view(c)) =~= before.map_values(|c: HomeChip| chip_view(c)).push(
                    chip_view(out@.last())));
            },
            _ => {
                assert(out@ == before);
            },
        }
        i = i + 1;
    }
    assert(vs.take(all@.len() as int) =~= vs);
    out
}

// --- a carousel's header -----------------------------------------------------------------------

/// A carousel shelf's header: the first `musicCarouselShelfBasicHeaderRenderer` in it.
pub open spec fn carousel_header_node(shelf: JsonV) -> Option<JsonV> {
    first_of(under(shelf, "musicCarouselShelfBasicHeaderRenderer"@))
}

/// Where a carousel's "More" button leads: the first `browseEndpoint` inside the header's
/// `moreContentButton`.
pub open spec fn carousel_more_of(shelf: JsonV) -> Option<JsonV> {
    match get_opt(carousel_header_node(shelf), "moreContentButton"@) {
        Some(b) => first_of(under(b, "browseEndpoint"@)),
        None => None,
    }
}

/// A carousel's title (empty when its header has none), and the browseId and params its "More"
/// button leads to.
pub open spec fn carousel_header_of(shelf: JsonV) -> (Seq<char>, Option<Seq<char>>, Option<Seq<char>>) {
    (
        match runs_text_of(get_opt(carousel_header_node(shelf), "title"@)) {
            Some(t) => t,
            None => Seq::empty(),
        },
        str_value(get_opt(carousel_more_of(shelf), "browseId"@)),
        str_value(get_opt(carousel_more_of(shelf), "params"@)),
    )
}

/// A carousel's title and "More" target, as the home feed and the artist page show them.
pub fn carousel_header(shelf: &Json) -> (r: (String, Option<String>, Option<String>))
    ensures
        (r.0@, opt_chars(r.1), opt_chars(r.2)) == carousel_header_of(shelf@),
{
    let header = find_first(shelf, "musicCarouselShelfBasicHeaderRenderer");
    let title = match runs_text(get_member_opt(header, "title")) {
        Some(t) => t,
        None => String::new(),
    };
    let more = match get_member_opt(header, "moreContentButton") {
        Some(b) => find_first(b, "browseEndpoint"),
        None => None,
    };
    let browse_id = match crate::json::as_str(get_member_opt(more, "browseId")) {
        Some(b) => Some(b.clone()),
        None => None,
    };
    let params = match crate::json::as_str(get_member_opt(more, "params")) {
        Some(p) => Some(p.clone()),
        None => None,
    };
    (title, browse_id, params)
}

// --- album and artist fields -------------------------------------------------------------------

/// The first description among these description shelves.
pub open spec fn first_description(shelves: Seq<JsonV>) -> Option<Seq<char>>
    decreases shelves.len(),
{
    if shelves.len() == 0 {
        None
    } else {
        match runs_text_of(get(shelves[0], "description"@)) {
            Some(d) => Some(d),
            None => first_description(shelves.drop_first()),
        }
    }
}

/// An album's description: the header's own, else the first `musicDescriptionShelfRenderer`'s.
pub open spec fn album_description_of(root: JsonV, header: Option<JsonV>) -> Option<Seq<char>> {
    match runs_text_of(get_opt(header, "description"@)) {
        Some(d) => Some(d),
        None => first_description(under(root, "musicDescriptionShelfRenderer"@)),
    }
}

/// An album's description.
pub fn album_description(root: &Json, header: Option<&Json>) -> (r: Option<String>)
    ensures
        opt_chars(r) == album_description_of(root@, opt_view(header)),
{
    match runs_text(get_member_opt(header, "description")) {
        Some(d) => {
            return Some(d);
        },
        None => {},
    }
    let all = find_all(root, "musicDescriptionShelfRenderer");
    let ghost vs = views(all@);
    assert(vs.skip(0) =~= vs);
    let mut i: usize = 0;
    while i < all.len()
        invariant
            0 <= i <= all@.len(),
            vs == views(all@),
            vs == under(root@, "musicDescriptionShelfRenderer"@),
            runs_text_of(get_opt(opt_view(header), "description"@)) is None,
            first_description(vs) == first_description(vs.skip(i as int)),
        decreases all@.len() - i,
    {
        assert(vs.skip(i as int).drop_first() =~= vs.skip(i + 1));
        assert(vs.skip(i as int)[0] == all@[i as int]@);
        match runs_text(get_member(all[i], "description")) {
            Some(d) => {
                return Some(d);
            },
            None => {},
        }
        i = i + 1;
    }
    None
}

/// The first of these values that is a string starting `VL`.
pub open spec fn first_vl(ids: Seq<JsonV>) -> Option<Seq<char>>
    decreases ids.len(),
{
    if ids.len() == 0 {
        None
    } else if ids[0] is Str && is_prefix("VL"@, ids[0]->Str_0) {
        Some(ids[0]->Str_0)
    } else {
        first_vl(ids.drop_first())
    }
}

/// The playlist behind an artist's top-songs shelf: the first `VL…` browseId in the shelf's
/// `bottomEndpoint` ("Show all"), or in the whole shelf when it has none. Other shelves link a
/// channel, hence the prefix.
pub open spec fn top_songs_id_of(shelf: JsonV) -> Option<Seq<char>> {
    first_vl(under(match get(shelf, "bottomEndpoint"@) {
        Some(b) => b,
        None => shelf,
    }, "browseId"@))
}

/// The playlist behind an artist's top-songs shelf.
pub fn top_songs_id(shelf: &Json) -> (r: Option<String>)
    ensures
        opt_chars(r) == top_songs_id_of(shelf@),
{
    let scope = match get_member(shelf, "bottomEndpoint") {
        Some(b) => b,
        None => shelf,
    };
    let all = find_all(scope, "browseId");
    let ghost vs = views(all@);
    assert(vs.skip(0) =~= vs);
    let mut i: usize = 0;
    while i < all.len()
        invariant
            0 <= i <= all@.len(),
            vs == views(all@),
            vs == under(match get(shelf@, "bottomEndpoint"@) {
                Some(b) => b,
                None => shelf@,
            }, "browseId"@),
            first_vl(vs) == first_vl(vs.skip(i as int)),
        decreases all@.len() - i,
    {
        assert(vs.skip(i as int).drop_first() =~= vs.skip(i + 1));
        assert(vs.skip(i as int)[0] == all@[i as int]@);
        match all[i] {
            Json::Str(id) => {
                if starts_with(id.as_str(), "VL") {
                    return Some(id.clone());
                }
            },
            _ => {},
        }
        i = i + 1;
    }
    None
}

/// The artist header's subscribe button: the first `subscribeButtonRenderer` in it.
pub open spec fn subscribe_button_of(header: Option<JsonV>) -> Option<JsonV> {
    match header {
        Some(h) => first_of(under(h, "subscribeButtonRenderer"@)),
        None => None,
    }
}

/// What the artist header says of the subscription: the channel to subscribe to (the button's
/// `channelId`, else the page's own browseId, which is the same `UC…`), whether the user is
/// subscribed, the subscriber count (the long, labelled form first), and the monthly audience.
pub open spec fn artist_subscription_of(header: Option<JsonV>, browse_id: Seq<char>)
    -> (Seq<char>, bool, Option<Seq<char>>, Option<Seq<char>>)
{
    let sub = subscribe_button_of(header);
    (
        match str_value(get_opt(sub, "channelId"@)) {
            Some(c) => c,
            None => browse_id,
        },
        get_opt(sub, "subscribed"@) == Some(JsonV::Bool(true)),
        match sub {
            None => None,
            Some(s) => match text_or_runs_of(get(s, "longSubscriberCountText"@)) {
                Some(t) => Some(t),
                None => text_or_runs_of(get(s, "subscriberCountText"@)),
            },
        },
        text_or_runs_of(get_opt(header, "monthlyListenerCount"@)),
    )
}

/// What the artist header says of the subscription and the audience.
pub fn artist_subscription(header: Option<&Json>, browse_id: &str)
    -> (r: (String, bool, Option<String>, Option<String>))
    ensures
        (r.0@, r.1, opt_chars(r.2), opt_chars(r.3)) == artist_subscription_of(opt_view(header), browse_id@),
{
    let sub = match header {
        Some(h) => find_first(h, "subscribeButtonRenderer"),
        None => None,
    };
    let channel_id = match crate::json::as_str(get_member_opt(sub, "channelId")) {
        Some(c) => c.clone(),
        None => owned(browse_id),
    };
    let subscribed = match crate::json::as_bool(get_member_opt(sub, "subscribed")) {
        Some(b) => b,
        None => false,
    };
    let subscribers = match sub {
        None => None,
        Some(s) => match text_or_runs(get_member(s, "longSubscriberCountText")) {
            Some(t) => Some(t),
            None => text_or_runs(get_member(s, "subscriberCountText")),
        },
    };
    let monthly = text_or_runs(get_member_opt(header, "monthlyListenerCount"));
    (channel_id, subscribed, subscribers, monthly)
}

// --- where a card leads --------------------------------------------------------------------------

/// A string member two levels down: `j.outer.inner`.
pub open spec fn str_at(j: Option<JsonV>, outer: Seq<char>, inner: Seq<char>) -> Option<Seq<char>> {
    str_value(get_opt(get_opt(j, outer), inner))
}

/// What a navigation endpoint leads to, as a card's kind and id: a `watchEndpoint`'s video plays
/// (a song), a `watchPlaylistEndpoint`'s playlist opens as `VL` + its id when `playlists` is on,
/// and a `browseEndpoint` opens its browseId as an album, artist or playlist page.
pub open spec fn nav_target_of(nav: Option<JsonV>, playlists: bool) -> Option<(Seq<char>, Seq<char>)> {
    match str_at(nav, "watchEndpoint"@, "videoId"@) {
        Some(v) => Some(("song"@, v)),
        None => match (if playlists { str_at(nav, "watchPlaylistEndpoint"@, "playlistId"@) } else { None }) {
            Some(p) => Some(("playlist"@, "VL"@ + p)),
            None => match str_at(nav, "browseEndpoint"@, "browseId"@) {
                Some(b) => Some((kind_from_id(target_id(b)), target_id(b))),
                None => None,
            },
        },
    }
}

/// What a navigation endpoint leads to.
fn nav_target(nav: Option<&Json>, playlists: bool) -> (r: Option<(&'static str, String)>)
    ensures
        match r {
            Some((k, id)) => nav_target_of(opt_view(nav), playlists) == Some((k@, id@)),
            None => nav_target_of(opt_view(nav), playlists) is None,
        },
{
    match crate::json::as_str(get_member_opt(get_member_opt(nav, "watchEndpoint"), "videoId")) {
        Some(v) => {
            proof {
                reveal_strlit("song");
            }
            return Some(("song", v.clone()));
        },
        None => {},
    }
    if playlists {
        match crate::json::as_str(get_member_opt(get_member_opt(nav, "watchPlaylistEndpoint"), "playlistId")) {
            Some(p) => {
                let mut id = owned("VL");
                push_str(&mut id, p.as_str());
                return Some(("playlist", id));
            },
            None => {},
        }
    }
    match crate::json::as_str(get_member_opt(get_member_opt(nav, "browseEndpoint"), "browseId")) {
        Some(b) => Some(browse_target(b.as_str())),
        None => None,
    }
}

/// Where a two-row card (`musicTwoRowItemRenderer`: home shelves, library grids, artist
/// carousels) leads: its own `navigationEndpoint`, read as a song, a raw playlist or a browse page.
pub open spec fn two_row_target_of(node: JsonV) -> Option<(Seq<char>, Seq<char>)> {
    nav_target_of(get(node, "navigationEndpoint"@), true)
}

/// Where a two-row card leads: its kind and id.
pub fn two_row_target(node: &Json) -> (r: Option<(&'static str, String)>)
    ensures
        match r {
            Some((k, id)) => two_row_target_of(node@) == Some((k@, id@)),
            None => two_row_target_of(node@) is None,
        },
{
    nav_target(get_member(node, "navigationEndpoint"), true)
}

/// The navigation of a search's top-result card: its title's first run's endpoint, else its
/// `onTap`, else its own `navigationEndpoint`.
pub open spec fn card_shelf_nav_of(card: JsonV) -> Option<JsonV> {
    let first_run = match get_opt(get(card, "title"@), "runs"@) {
        Some(JsonV::Array(runs)) => if runs.len() > 0 { get(runs[0], "navigationEndpoint"@) } else { None },
        _ => None,
    };
    match first_run {
        Some(n) => Some(n),
        None => match get(card, "onTap"@) {
            Some(n) => Some(n),
            None => get(card, "navigationEndpoint"@),
        },
    }
}

/// Where a search's top-result card leads: a song it plays, or the page it opens.
pub open spec fn card_shelf_target_of(card: JsonV) -> Option<(Seq<char>, Seq<char>)> {
    nav_target_of(card_shelf_nav_of(card), false)
}

/// Where a search's top-result card leads: its kind and id.
pub fn card_shelf_target(card: &Json) -> (r: Option<(&'static str, String)>)
    ensures
        match r {
            Some((k, id)) => card_shelf_target_of(card@) == Some((k@, id@)),
            None => card_shelf_target_of(card@) is None,
        },
{
    let runs = get_member_opt(get_member(card, "title"), "runs");
    let first_run = match runs {
        Some(Json::Array(items)) => {
            proof {
                lemma_items_view(items@);
            }
            if items.len() > 0 {
                get_member(&items[0], "navigationEndpoint")
            } else {
                None
            }
        },
        _ => None,
    };
    let nav = match first_run {
        Some(n) => Some(n),
        None => match get_member(card, "onTap") {
            Some(n) => Some(n),
            None => get_member(card, "navigationEndpoint"),
        },
    };
    nav_target(nav, false)
}

// --- a playlist page around its rows ----------------------------------------------------------

/// A playlist page's subtitle: the header's `secondSubtitle` ("N songs • Xh Ym"), else its
/// `subtitle`.
pub open spec fn playlist_subtitle_of(header: Option<JsonV>) -> Option<Seq<char>> {
    match runs_text_of(get_opt(header, "secondSubtitle"@)) {
        Some(t) => Some(t),
        None => runs_text_of(get_opt(header, "subtitle"@)),
    }
}

/// A node's largest thumbnail, when there is a node.
pub open spec fn last_thumbnail_opt(node: Option<JsonV>) -> Option<Seq<char>> {
    match node {
        Some(n) => last_thumbnail_of(n),
        None => None,
    }
}

/// Whether the signed-in user owns the playlist: YouTube wraps the header in
/// `musicEditablePlaylistDetailHeaderRenderer` exactly for owned playlists.
pub open spec fn owned_playlist_of(root: JsonV) -> bool {
    under(root, "musicEditablePlaylistDetailHeaderRenderer"@).len() > 0
}

/// A playlist page (`VL…`) around its track rows: the header's title, subtitle and cover,
/// whether the user owns it, the track shelf's paging token and its sort menu.
pub fn playlist_page(root: &Json, items: Vec<SongItem>) -> (r: PlaylistPage)
    ensures
        opt_chars(r.title) == runs_text_of(get_opt(playlist_header_of(root@), "title"@)),
        opt_chars(r.subtitle) == playlist_subtitle_of(playlist_header_of(root@)),
        opt_chars(r.thumbnail) == last_thumbnail_opt(playlist_header_of(root@)),
        r.items == items,
        opt_chars(r.continuation) == shelf_continuation_of(root@),
        r.owned == owned_playlist_of(root@),
        r.sort_menu == sort_menu_of(root@),
{
    let header = playlist_header(root);
    let title = runs_text(get_member_opt(header, "title"));
    let subtitle = match runs_text(get_member_opt(header, "secondSubtitle")) {
        Some(t) => Some(t),
        None => runs_text(get_member_opt(header, "subtitle")),
    };
    let thumbnail = match header {
        Some(h) => last_thumbnail(h),
        None => None,
    };
    let owned = find_all(root, "musicEditablePlaylistDetailHeaderRenderer").len() > 0;
    let continuation = shelf_continuation(root);
    PlaylistPage { title, subtitle, thumbnail, items, continuation, owned, sort_menu: sort_menu(root) }
}

/// A continuation page's paging token: the track shelf's own, else any in the response (the
/// `…ShelfContinuation` shapes carry no shelf node to scope to).
pub open spec fn continuation_page_token_of(root: JsonV) -> Option<Seq<char>> {
    match shelf_continuation_of(root) {
        Some(t) => Some(t),
        None => continuation_token_of(root),
    }
}

/// A page of extra tracks around its rows, with the token for the page after it.
pub fn continuation_page(root: &Json, items: Vec<SongItem>) -> (r: PlaylistContinuation)
    ensures
        r.items == items,
        opt_chars(r.continuation) == continuation_page_token_of(root@),
{
    let continuation = match shelf_continuation(root) {
        Some(t) => Some(t),
        None => continuation_token(root),
    };
    PlaylistContinuation { items, continuation }
}

} // verus!
