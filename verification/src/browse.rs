//! Browse-surface models and the parts of the response walk that read them: paging tokens, the
//! playlist header and track shelf, the sort menu, the album's library toggle and audio playlist,
//! the artist radio, the signed-out shell, and how a browseId is classified.
use vstd::prelude::*;

use crate::json::{
    as_bool, as_i64, as_str, fields_view, find_all, find_first, find_first_str, find_first_str_spec, find_member_str,
    first_member_str, first_of, get, get_member, get_member_opt, get_opt, index0, items_view, json_view,
    lemma_fields_view, lemma_items_view, member_of, opt_view, pointer_index0, str_value, under, views, Json,
    JsonV,
};
use crate::percent::{percent_decode, percent_decoded};
use crate::text::{is_prefix, owned, starts_with, str_eq, strip_prefix};

verus! {

/// One run of an artist line (an artist, or the text between two), with the channel it links
/// when it links one.
#[derive(Debug, Clone, PartialEq, Default)]
pub struct ArtistRun {
    pub text: String,
    pub id: Option<String>,
}

/// A track row: the queue entry, the page row, the thing that plays.
#[derive(Debug, Clone, PartialEq, Default)]
pub struct SongItem {
    pub video_id: String,
    pub title: String,
    pub artists: String,
    pub artist_id: Option<String>,
    pub artist_runs: Vec<ArtistRun>,
    pub album: Option<String>,
    pub thumbnail: Option<String>,
    pub duration: Option<String>,
    pub is_video: bool,
    pub explicit: bool,
    /// Queue-slot metadata: added with "add to queue".
    pub queued: bool,
    /// Queue-slot metadata: added to the back of the manual block.
    pub queued_end: bool,
    /// Queue-slot metadata: the title of the album/playlist it was queued from.
    pub queued_from: Option<String>,
    /// Queue-slot metadata: the Listen Together member who queued it.
    pub queued_by: Option<String>,
    /// Queue-slot metadata: radio appended it.
    pub autoplay: bool,
    /// The playlist item id (`playlistSetVideoId`) of the playlist it was played from.
    pub set_video_id: Option<String>,
}

/// One clickable card in a home carousel or library grid. `song` plays `id` (a videoId);
/// `playlist`/`album`/`artist` navigate to the browse page for `id` (a browseId).
#[derive(Debug, Clone)]
pub struct BrowseItem {
    /// `song` | `playlist` | `album` | `artist`.
    pub kind: &'static str,
    pub id: String,
    pub title: String,
    pub subtitle: Option<String>,
    pub thumbnail: Option<String>,
    pub duration: Option<String>,
    pub artist_runs: Vec<ArtistRun>,
    pub is_video: bool,
    pub explicit: bool,
}

/// A titled row of cards on the home feed.
#[derive(Debug, Clone)]
pub struct Section {
    pub title: String,
    pub items: Vec<BrowseItem>,
    pub more_browse_id: Option<String>,
    pub more_params: Option<String>,
}

/// A mood/genre filter chip above the home feed, with the `params` that re-browse the feed to it.
#[derive(Debug, Clone)]
pub struct HomeChip {
    pub title: String,
    pub params: String,
}

#[derive(Debug, Clone)]
pub struct HomePage {
    pub chips: Vec<HomeChip>,
    pub sections: Vec<Section>,
    pub continuation: Option<String>,
}

/// The orders YouTube can put a playlist in.
#[derive(Debug, Clone, Copy, PartialEq, Eq, Structural)]
pub enum PlaylistSort {
    /// The playlist's own order.
    Default,
    Newest,
    Oldest,
    Title,
    Artist,
    Album,
    /// YouTube's "Top voted".
    Top,
}

/// The sort menu in a playlist header, when YouTube offers one.
#[derive(Debug, Clone, Copy, PartialEq, Eq, Structural)]
pub struct SortMenu {
    /// The order the list is in right now, when it is one we have a name for.
    pub selected: Option<PlaylistSort>,
    /// The options write the order back to the account (playlists you own).
    pub editable: bool,
}

/// A playlist or album detail page: header + tracks + a paging token.
#[derive(Debug, Clone)]
pub struct PlaylistPage {
    pub title: Option<String>,
    pub subtitle: Option<String>,
    pub thumbnail: Option<String>,
    pub items: Vec<SongItem>,
    pub continuation: Option<String>,
    /// True only when the signed-in user owns this playlist.
    pub owned: bool,
    /// Absent on lists YouTube will not reorder at all.
    pub sort_menu: Option<SortMenu>,
}

/// A page of extra tracks fetched via a continuation token.
#[derive(Debug, Clone)]
pub struct PlaylistContinuation {
    pub items: Vec<SongItem>,
    pub continuation: Option<String>,
}

/// An artist detail page.
#[derive(Debug, Clone)]
pub struct ArtistPage {
    pub name: Option<String>,
    pub thumbnail: Option<String>,
    pub description: Option<String>,
    pub subscribers: Option<String>,
    pub monthly_listeners: Option<String>,
    pub channel_id: String,
    pub subscribed: bool,
    pub radio_playlist_id: Option<String>,
    pub top_songs: Vec<SongItem>,
    pub top_songs_id: Option<String>,
    pub sections: Vec<ArtistCarousel>,
}

/// One titled card row on an artist page, plus where its "More" button navigates.
#[derive(Debug, Clone)]
pub struct ArtistCarousel {
    pub title: String,
    pub items: Vec<BrowseItem>,
    pub more_browse_id: Option<String>,
    pub more_params: Option<String>,
}

/// An album detail page.
#[derive(Debug, Clone)]
pub struct AlbumPage {
    pub title: Option<String>,
    pub artist: Option<String>,
    pub artist_id: Option<String>,
    pub artist_runs: Vec<ArtistRun>,
    pub artist_thumbnail: Option<String>,
    pub subtitle: Option<String>,
    pub second_subtitle: Option<String>,
    pub description: Option<String>,
    pub thumbnail: Option<String>,
    pub items: Vec<SongItem>,
    pub continuation: Option<String>,
    pub explicit: bool,
    pub playlist_id: Option<String>,
    pub in_library: bool,
}

/// Categorized results for an unfiltered search.
#[derive(Debug, Clone)]
pub struct SearchResults {
    pub top: Vec<BrowseItem>,
    pub songs: Vec<BrowseItem>,
    pub albums: Vec<BrowseItem>,
    pub artists: Vec<BrowseItem>,
    pub playlists: Vec<BrowseItem>,
}

// --- playlist orders -------------------------------------------------------------------------

/// The `browse` `params` that returns the list in an order (`desc` reverses it).
pub open spec fn sort_params(s: PlaylistSort, desc: bool) -> Seq<char> {
    match (s, desc) {
        (PlaylistSort::Default, _) => "2ggA"@,
        (PlaylistSort::Newest, false) | (PlaylistSort::Oldest, true) => "2ggECAIQAw=="@,
        (PlaylistSort::Oldest, false) | (PlaylistSort::Newest, true) => "2ggECAEQAw=="@,
        (PlaylistSort::Top, false) => "2ggECAIQBA=="@,
        (PlaylistSort::Top, true) => "2ggECAEQBA=="@,
        (PlaylistSort::Title, false) => "2ggECAEQBQ=="@,
        (PlaylistSort::Title, true) => "2ggECAIQBQ=="@,
        (PlaylistSort::Artist, false) => "2ggECAEQBg=="@,
        (PlaylistSort::Artist, true) => "2ggECAIQBg=="@,
        (PlaylistSort::Album, false) => "2ggECAEQBw=="@,
        (PlaylistSort::Album, true) => "2ggECAIQBw=="@,
    }
}

/// The first order, in declaration order, whose `params` in direction `desc` are `p`.
pub open spec fn sort_with_params(p: Seq<char>, desc: bool) -> Option<PlaylistSort> {
    if sort_params(PlaylistSort::Default, desc) == p {
        Some(PlaylistSort::Default)
    } else if sort_params(PlaylistSort::Newest, desc) == p {
        Some(PlaylistSort::Newest)
    } else if sort_params(PlaylistSort::Oldest, desc) == p {
        Some(PlaylistSort::Oldest)
    } else if sort_params(PlaylistSort::Title, desc) == p {
        Some(PlaylistSort::Title)
    } else if sort_params(PlaylistSort::Artist, desc) == p {
        Some(PlaylistSort::Artist)
    } else if sort_params(PlaylistSort::Album, desc) == p {
        Some(PlaylistSort::Album)
    } else if sort_params(PlaylistSort::Top, desc) == p {
        Some(PlaylistSort::Top)
    } else {
        None
    }
}

/// The order a list asked for with `p` comes back in: the order whose forward `params` are `p`,
/// else the one whose reversed `params` are. So the date params read back as the date order they
/// really give (newest first, or oldest first), and a reversed title, artist, album or top-voted
/// list reads back as its kind.
pub open spec fn sort_from_params(p: Seq<char>) -> Option<PlaylistSort> {
    match sort_with_params(p, false) {
        Some(s) => Some(s),
        None => sort_with_params(p, true),
    }
}

/// The member an order's edit action sets.
pub open spec fn edit_field(s: PlaylistSort) -> Seq<char> {
    match s {
        PlaylistSort::Default | PlaylistSort::Newest | PlaylistSort::Oldest | PlaylistSort::Top => "playlistVideoOrder"@,
        _ => "playlistDynamicSortPreference"@,
    }
}

/// The value an order's edit action sets.
pub open spec fn edit_value(s: PlaylistSort) -> int {
    match s {
        PlaylistSort::Default => 0,
        PlaylistSort::Newest => 1,
        PlaylistSort::Oldest => 2,
        PlaylistSort::Top => 6,
        PlaylistSort::Title => 1,
        PlaylistSort::Artist => 2,
        PlaylistSort::Album => 3,
    }
}

/// The action name an order's edit action carries.
pub open spec fn edit_action_name(s: PlaylistSort) -> Seq<char> {
    match s {
        PlaylistSort::Default | PlaylistSort::Newest | PlaylistSort::Oldest | PlaylistSort::Top => "ACTION_SET_PLAYLIST_VIDEO_ORDER"@,
        _ => "ACTION_SET_PLAYLIST_DYNAMIC_SORT_PREFERENCE"@,
    }
}

/// `{ "action": …, <field>: n }`, members in key order.
pub open spec fn edit_action_json(s: PlaylistSort) -> JsonV {
    JsonV::Object(seq![
        ("action"@, JsonV::Str(edit_action_name(s))),
        (edit_field(s), JsonV::Int(edit_value(s))),
    ])
}

/// Whether `j` is the edit action of `s`: an object holding exactly its two members.
pub open spec fn is_edit_action(j: JsonV, s: PlaylistSort) -> bool {
    match j {
        JsonV::Object(fields) => fields.len() == 2 && member_of(fields, "action"@) == Some(JsonV::Str(edit_action_name(s)))
            && member_of(fields, edit_field(s)) == Some(JsonV::Int(edit_value(s))),
        _ => false,
    }
}

/// The first order, in declaration order, whose edit action `j` is.
pub open spec fn sort_from_edit_action(j: JsonV) -> Option<PlaylistSort> {
    if is_edit_action(j, PlaylistSort::Default) {
        Some(PlaylistSort::Default)
    } else if is_edit_action(j, PlaylistSort::Newest) {
        Some(PlaylistSort::Newest)
    } else if is_edit_action(j, PlaylistSort::Oldest) {
        Some(PlaylistSort::Oldest)
    } else if is_edit_action(j, PlaylistSort::Title) {
        Some(PlaylistSort::Title)
    } else if is_edit_action(j, PlaylistSort::Artist) {
        Some(PlaylistSort::Artist)
    } else if is_edit_action(j, PlaylistSort::Album) {
        Some(PlaylistSort::Album)
    } else if is_edit_action(j, PlaylistSort::Top) {
        Some(PlaylistSort::Top)
    } else {
        None
    }
}

impl PlaylistSort {
    /// All orders, in declaration order.
    pub const ALL: [PlaylistSort; 7] = [
        PlaylistSort::Default,
        PlaylistSort::Newest,
        PlaylistSort::Oldest,
        PlaylistSort::Title,
        PlaylistSort::Artist,
        PlaylistSort::Album,
        PlaylistSort::Top,
    ];

    /// The `browse` `params` that returns the list in this order. "Newest" is already a
    /// descending sort on date, so reversing it is "Oldest"; the stored order has no reverse.
    pub fn params(self, desc: bool) -> (r: &'static str)
        ensures
            r@ == sort_params(self, desc),
    {
        match (self, desc) {
            (PlaylistSort::Default, _) => "2ggA",
            (PlaylistSort::Newest, false) | (PlaylistSort::Oldest, true) => "2ggECAIQAw==",
            (PlaylistSort::Oldest, false) | (PlaylistSort::Newest, true) => "2ggECAEQAw==",
            (PlaylistSort::Top, false) => "2ggECAIQBA==",
            (PlaylistSort::Top, true) => "2ggECAEQBA==",
            (PlaylistSort::Title, false) => "2ggECAEQBQ==",
            (PlaylistSort::Title, true) => "2ggECAIQBQ==",
            (PlaylistSort::Artist, false) => "2ggECAEQBg==",
            (PlaylistSort::Artist, true) => "2ggECAIQBg==",
            (PlaylistSort::Album, false) => "2ggECAEQBw==",
            (PlaylistSort::Album, true) => "2ggECAIQBw==",
        }
    }

    /// The member and value of the `browse/edit_playlist` action that stores this order. The
    /// dynamic sort preference is only ever 1..3: YouTube answers anything else with HTTP 500.
    pub fn edit_parts(self) -> (r: (&'static str, &'static str, i64))
        ensures
            r.0@ == edit_action_name(self),
            r.1@ == edit_field(self),
            r.2 as int == edit_value(self),
    {
        let (field, n): (&'static str, i64) = match self {
            PlaylistSort::Default => ("playlistVideoOrder", 0),
            PlaylistSort::Newest => ("playlistVideoOrder", 1),
            PlaylistSort::Oldest => ("playlistVideoOrder", 2),
            PlaylistSort::Top => ("playlistVideoOrder", 6),
            PlaylistSort::Title => ("playlistDynamicSortPreference", 1),
            PlaylistSort::Artist => ("playlistDynamicSortPreference", 2),
            PlaylistSort::Album => ("playlistDynamicSortPreference", 3),
        };
        let action: &'static str = match self {
            PlaylistSort::Default | PlaylistSort::Newest | PlaylistSort::Oldest | PlaylistSort::Top => "ACTION_SET_PLAYLIST_VIDEO_ORDER",
            _ => "ACTION_SET_PLAYLIST_DYNAMIC_SORT_PREFERENCE",
        };
        (action, field, n)
    }

    /// The `browse/edit_playlist` action that stores this order on a playlist you own.
    pub fn edit_action(self) -> (r: Json)
        ensures
            r@ == edit_action_json(self),
    {
        let (action, field, n) = self.edit_parts();
        let fields = vec![
            (owned("action"), Json::Str(owned(action))),
            (owned(field), Json::Int(n)),
        ];
        let r = Json::Object(fields);
        proof {
            lemma_fields_view(fields@);
            assert(fields_view(fields@) =~= seq![
                ("action"@, JsonV::Str(edit_action_name(self))),
                (edit_field(self), JsonV::Int(edit_value(self))),
            ]);
        }
        r
    }

    /// The order one of its `params` names, read back: the order the list comes back in.
    pub fn from_params(params: &str) -> (r: Option<PlaylistSort>)
        ensures
            r == sort_from_params(params@),
    {
        match Self::with_params(params, false) {
            Some(s) => Some(s),
            None => Self::with_params(params, true),
        }
    }

    /// The first order whose `params` in direction `desc` are `params`.
    fn with_params(params: &str, desc: bool) -> (r: Option<PlaylistSort>)
        ensures
            r == sort_with_params(params@, desc),
    {
        let mut i: usize = 0;
        while i < 7
            invariant
                0 <= i <= 7,
                forall|k: int| 0 <= k < i ==> sort_params(#[trigger] Self::ALL@[k], desc) != params@,
            decreases 7 - i,
        {
            let s = Self::ALL[i];
            if str_eq(s.params(desc), params) {
                proof {
                    assert forall|k: int| 0 <= k < 7 implies Self::ALL@[k] == seq![PlaylistSort::Default,
                        PlaylistSort::Newest, PlaylistSort::Oldest, PlaylistSort::Title, PlaylistSort::Artist,
                        PlaylistSort::Album, PlaylistSort::Top][k] by {}
                }
                return Some(s);
            }
            i = i + 1;
        }
        None
    }

    /// The order an edit action stores, read back.
    pub fn from_edit_action(action: &Json) -> (r: Option<PlaylistSort>)
        ensures
            r == sort_from_edit_action(action@),
    {
        let mut i: usize = 0;
        while i < 7
            invariant
                0 <= i <= 7,
                forall|k: int| 0 <= k < i ==> !is_edit_action(action@, #[trigger] Self::ALL@[k]),
            decreases 7 - i,
        {
            let s = Self::ALL[i];
            if is_edit_action_of(action, s) {
                return Some(s);
            }
            i = i + 1;
        }
        None
    }
}

/// Whether `j` is the edit action of `s`.
fn is_edit_action_of(j: &Json, s: PlaylistSort) -> (r: bool)
    ensures
        r == is_edit_action(j@, s),
{
    match j {
        Json::Object(fields) => {
            proof {
                lemma_fields_view(fields@);
            }
            if fields.len() != 2 {
                return false;
            }
            let (action, field, n) = s.edit_parts();
            let a = as_str(get_member(j, "action"));
            let a_ok = match a {
                Some(t) => str_eq(t.as_str(), action),
                None => false,
            };
            let v = as_i64(get_member(j, field));
            let v_ok = match v {
                Some(m) => m == n,
                None => false,
            };
            a_ok && v_ok
        },
        _ => false,
    }
}

// --- browse ids ------------------------------------------------------------------------------

/// Albums are `MPRE…` (or `VLMPRE…`), channels `UC…`, everything else a playlist.
pub open spec fn kind_from_id(id: Seq<char>) -> Seq<char> {
    if is_prefix("MPRE"@, id) || is_prefix("VLMPRE"@, id) {
        "album"@
    } else if is_prefix("UC"@, id) {
        "artist"@
    } else {
        "playlist"@
    }
}

/// Classify a browseId: albums are `MPRE…`, artist/user channels are `UC…`, everything else
/// (`VL…`, `PL…`, `RD…`) is treated as a playlist.
pub fn browse_kind_from_id(id: &str) -> (r: &'static str)
    ensures
        r@ == kind_from_id(id@),
{
    if starts_with(id, "MPRE") || starts_with(id, "VLMPRE") {
        "album"
    } else if starts_with(id, "UC") {
        "artist"
    } else {
        "playlist"
    }
}

/// The id a browse target navigates with: a library-artist link (`MPLA` + channelId) opens the
/// plain artist page.
pub open spec fn target_id(id: Seq<char>) -> Seq<char> {
    if is_prefix("MPLA"@, id) { id.subrange(4, id.len() as int) } else { id }
}

/// A browseId as the UI should store it: kind plus the id to navigate with.
pub fn browse_target(id: &str) -> (r: (&'static str, String))
    ensures
        r.1@ == target_id(id@),
        r.0@ == kind_from_id(target_id(id@)),
{
    let stripped = match strip_prefix(id, "MPLA") {
        Some(rest) => rest,
        None => owned(id),
    };
    proof {
        reveal_strlit("MPLA");
    }
    (browse_kind_from_id(stripped.as_str()), stripped)
}

// --- the response walk -----------------------------------------------------------------------

/// `first.or(second)` for optional values.
pub open spec fn or_else<T>(first: Option<T>, second: Option<T>) -> Option<T> {
    if first is Some { first } else { second }
}

/// Paging token, modern (`continuationCommand.token`) or legacy (`nextContinuationData`).
pub open spec fn continuation_token_of(root: JsonV) -> Option<Seq<char>> {
    or_else(
        first_member_str(under(root, "continuationCommand"@), "token"@),
        first_member_str(under(root, "nextContinuationData"@), "continuation"@),
    )
}

/// Paging token, modern (`continuationCommand.token`) first, legacy (`nextContinuationData`)
/// second.
pub fn continuation_token(root: &Json) -> (r: Option<String>)
    ensures
        match r {
            Some(t) => continuation_token_of(root@) == Some(t@),
            None => continuation_token_of(root@) is None,
        },
{
    let modern = find_all(root, "continuationCommand");
    match find_member_str(&modern, "token") {
        Some(t) => Some(t),
        None => {
            let legacy = find_all(root, "nextContinuationData");
            find_member_str(&legacy, "continuation")
        },
    }
}

/// The shelf holding the list's own tracks: the first playlist shelf, else the first shelf.
pub open spec fn track_shelf_of(root: JsonV) -> Option<JsonV> {
    or_else(first_of(under(root, "musicPlaylistShelfRenderer"@)), first_of(under(root, "musicShelfRenderer"@)))
}

/// The shelf holding the playlist's/album's own tracks — the first one in the response, since
/// the suggestions section always comes after it.
pub fn track_shelf<'a>(root: &'a Json) -> (r: Option<&'a Json>)
    ensures
        opt_view(r) == track_shelf_of(root@),
{
    match find_first(root, "musicPlaylistShelfRenderer") {
        Some(s) => Some(s),
        None => find_first(root, "musicShelfRenderer"),
    }
}

/// The track shelf's own paging token, and nothing when there is no track shelf.
pub open spec fn shelf_continuation_of(root: JsonV) -> Option<Seq<char>> {
    match track_shelf_of(root) {
        Some(shelf) => continuation_token_of(shelf),
        None => None,
    }
}

/// The track shelf's own paging token. A suggestions shelf's token is never used: paging it
/// appends songs the playlist does not contain.
pub fn shelf_continuation(root: &Json) -> (r: Option<String>)
    ensures
        match r {
            Some(t) => shelf_continuation_of(root@) == Some(t@),
            None => shelf_continuation_of(root@) is None,
        },
{
    match track_shelf(root) {
        Some(shelf) => continuation_token(shelf),
        None => None,
    }
}

/// The playlist/album header node.
pub open spec fn playlist_header_of(root: JsonV) -> Option<JsonV> {
    or_else(first_of(under(root, "musicResponsiveHeaderRenderer"@)), first_of(under(root, "musicDetailHeaderRenderer"@)))
}

/// The playlist/album header node, found even when wrapped in an editable-playlist header.
pub fn playlist_header<'a>(root: &'a Json) -> (r: Option<&'a Json>)
    ensures
        opt_view(r) == playlist_header_of(root@),
{
    match find_first(root, "musicResponsiveHeaderRenderer") {
        Some(h) => Some(h),
        None => find_first(root, "musicDetailHeaderRenderer"),
    }
}

/// The first string among `items` that starts with `prefix`.
pub open spec fn first_str_with_prefix(items: Seq<JsonV>, prefix: Seq<char>) -> Option<Seq<char>>
    decreases items.len(),
{
    if items.len() == 0 {
        None
    } else if items[0] is Str && is_prefix(prefix, items[0]->Str_0) {
        Some(items[0]->Str_0)
    } else {
        first_str_with_prefix(items.drop_first(), prefix)
    }
}

/// The first string among `items` that starts with `prefix`.
fn find_str_with_prefix(items: &Vec<&Json>, prefix: &str) -> (r: Option<String>)
    ensures
        match r {
            Some(s) => first_str_with_prefix(views(items@), prefix@) == Some(s@),
            None => first_str_with_prefix(views(items@), prefix@) is None,
        },
{
    let ghost vs = views(items@);
    assert(vs.skip(0) =~= vs);
    let mut i: usize = 0;
    while i < items.len()
        invariant
            0 <= i <= items@.len(),
            vs == views(items@),
            first_str_with_prefix(vs, prefix@) == first_str_with_prefix(vs.skip(i as int), prefix@),
        decreases items@.len() - i,
    {
        assert(vs.skip(i as int).drop_first() =~= vs.skip(i + 1));
        assert(vs.skip(i as int)[0] == items@[i as int]@);
        match items[i] {
            Json::Str(s) => {
                if starts_with(s.as_str(), prefix) {
                    return Some(s.clone());
                }
            },
            _ => {},
        }
        i = i + 1;
    }
    None
}

/// The radio playlist behind a header or menu: the first `RD…` playlist id in it.
pub open spec fn radio_playlist_id_of(node: JsonV) -> Option<Seq<char>> {
    first_str_with_prefix(under(node, "playlistId"@), "RD"@)
}

/// The radio playlist behind a header or menu: the first watch endpoint pointing at an `RD…`
/// playlist. An artist radio id exists only there; it cannot be built client-side.
pub fn radio_playlist_id(node: &Json) -> (r: Option<String>)
    ensures
        match r {
            Some(s) => radio_playlist_id_of(node@) == Some(s@),
            None => radio_playlist_id_of(node@) is None,
        },
{
    let ids = find_all(node, "playlistId");
    find_str_with_prefix(&ids, "RD")
}

/// The album's own audio playlist id (`OLAK5uy_…`): the first track row that carries one.
pub open spec fn album_playlist_id_rows(rows: Seq<JsonV>) -> Option<Seq<char>>
    decreases rows.len(),
{
    if rows.len() == 0 {
        None
    } else if first_str_with_prefix(under(rows[0], "playlistId"@), "OLAK5uy_"@) is Some {
        first_str_with_prefix(under(rows[0], "playlistId"@), "OLAK5uy_"@)
    } else {
        album_playlist_id_rows(rows.drop_first())
    }
}

pub open spec fn album_playlist_id_of(root: JsonV) -> Option<Seq<char>> {
    album_playlist_id_rows(under(root, "musicResponsiveListItemRenderer"@))
}

/// The album's own audio playlist id, read from the track rows only: the response also carries
/// other albums' `OLAK5uy_` ids (the "more from artist" cards), so a whole-tree search would be
/// wrong.
pub fn album_playlist_id(root: &Json) -> (r: Option<String>)
    ensures
        match r {
            Some(s) => album_playlist_id_of(root@) == Some(s@),
            None => album_playlist_id_of(root@) is None,
        },
{
    let rows = find_all(root, "musicResponsiveListItemRenderer");
    let ghost vs = views(rows@);
    assert(vs.skip(0) =~= vs);
    let mut i: usize = 0;
    while i < rows.len()
        invariant
            0 <= i <= rows@.len(),
            vs == views(rows@),
            vs == under(root@, "musicResponsiveListItemRenderer"@),
            album_playlist_id_rows(vs) == album_playlist_id_rows(vs.skip(i as int)),
        decreases rows@.len() - i,
    {
        assert(vs.skip(i as int).drop_first() =~= vs.skip(i + 1));
        assert(vs.skip(i as int)[0] == rows@[i as int]@);
        let ids = find_all(rows[i], "playlistId");
        match find_str_with_prefix(&ids, "OLAK5uy_") {
            Some(id) => {
                return Some(id);
            },
            None => {},
        }
        i = i + 1;
    }
    None
}

/// The first of `items` that holds a `likeEndpoint` somewhere inside.
pub open spec fn first_with_like(items: Seq<JsonV>) -> Option<JsonV>
    decreases items.len(),
{
    if items.len() == 0 {
        None
    } else if under(items[0], "likeEndpoint"@).len() > 0 {
        Some(items[0])
    } else {
        first_with_like(items.drop_first())
    }
}

/// The header's save-to-library toggle: its `toggleButtonRenderer` whose action is a like.
pub open spec fn library_toggle_of(header: Option<JsonV>) -> Option<JsonV> {
    match header {
        Some(h) => first_with_like(under(h, "toggleButtonRenderer"@)),
        None => None,
    }
}

/// The header's save-to-library `toggleButtonRenderer` — the one whose action is a
/// `likeEndpoint` on the album's playlist (the header's other buttons are play/menu).
pub fn library_toggle<'a>(header: Option<&'a Json>) -> (r: Option<&'a Json>)
    ensures
        opt_view(r) == library_toggle_of(opt_view(header)),
{
    match header {
        None => None,
        Some(h) => {
            let toggles = find_all(h, "toggleButtonRenderer");
            let ghost vs = views(toggles@);
            assert(vs.skip(0) =~= vs);
            let mut i: usize = 0;
            while i < toggles.len()
                invariant
                    0 <= i <= toggles@.len(),
                    vs == views(toggles@),
                    vs == under(h@, "toggleButtonRenderer"@),
                    opt_view(header) == Some(h@),
                    first_with_like(vs) == first_with_like(vs.skip(i as int)),
                decreases toggles@.len() - i,
            {
                assert(vs.skip(i as int).drop_first() =~= vs.skip(i + 1));
                assert(vs.skip(i as int)[0] == toggles@[i as int]@);
                let likes = find_all(toggles[i], "likeEndpoint");
                if likes.len() > 0 {
                    assert(views(likes@).len() == likes@.len());
                    assert(under(vs.skip(i as int)[0], "likeEndpoint"@).len() > 0);
                    assert(vs.skip(i as int).len() > 0);
                    assert(first_with_like(vs.skip(i as int)) == Some(toggles@[i as int]@));
                    return Some(toggles[i]);
                }
                i = i + 1;
            }
            None
        },
    }
}

pub open spec fn library_toggle_playlist_id_of(header: Option<JsonV>) -> Option<Seq<char>> {
    match library_toggle_of(header) {
        Some(t) => find_first_str_spec(t, "playlistId"@),
        None => None,
    }
}

/// The playlist the library toggle likes: an album with no playable rows still has its id there.
pub fn library_toggle_playlist_id(header: Option<&Json>) -> (r: Option<String>)
    ensures
        match r {
            Some(s) => library_toggle_playlist_id_of(opt_view(header)) == Some(s@),
            None => library_toggle_playlist_id_of(opt_view(header)) is None,
        },
{
    match library_toggle(header) {
        Some(t) => find_first_str(t, "playlistId"),
        None => None,
    }
}

/// Whether the album is saved: the library toggle exists and is toggled on.
pub open spec fn in_library_of(header: Option<JsonV>) -> bool {
    match library_toggle_of(header) {
        Some(t) => get(t, "isToggled"@) == Some(JsonV::Bool(true)),
        None => false,
    }
}

/// Whether the album is already saved to the signed-in user's library.
pub fn album_in_library(header: Option<&Json>) -> (r: bool)
    ensures
        r == in_library_of(opt_view(header)),
{
    match library_toggle(header) {
        Some(t) => match as_bool(get_member(t, "isToggled")) {
            Some(b) => b,
            None => false,
        },
        None => false,
    }
}

/// The renderers whose presence means a page holds music.
pub open spec fn has_music(root: JsonV) -> bool {
    under(root, "musicResponsiveListItemRenderer"@).len() > 0 || under(root, "musicTwoRowItemRenderer"@).len() > 0
        || under(root, "musicCarouselShelfRenderer"@).len() > 0 || under(root, "musicPlaylistShelfRenderer"@).len() > 0
        || under(root, "musicShelfRenderer"@).len() > 0
}

/// YouTube's logged-out "Sign in" empty state: a sign-in link, no music, and a message.
pub open spec fn signed_out_shell(root: JsonV) -> bool {
    under(root, "signInEndpoint"@).len() > 0 && !has_music(root) && under(root, "messageRenderer"@).len() > 0
}

/// True if a browse response is YouTube's logged-out "Sign in" empty state — what the server
/// returns when the cookie has gone stale. A lone `signInEndpoint` is not enough: signed-in pages
/// embed that key in chrome ("Sign in to like").
pub fn is_signed_out(root: &Json) -> (r: bool)
    ensures
        r == signed_out_shell(root@),
{
    if find_all(root, "signInEndpoint").len() == 0 {
        return false;
    }
    let has = find_all(root, "musicResponsiveListItemRenderer").len() > 0
        || find_all(root, "musicTwoRowItemRenderer").len() > 0
        || find_all(root, "musicCarouselShelfRenderer").len() > 0
        || find_all(root, "musicPlaylistShelfRenderer").len() > 0
        || find_all(root, "musicShelfRenderer").len() > 0;
    if has {
        return false;
    }
    find_all(root, "messageRenderer").len() > 0
}

// --- the sort menu ---------------------------------------------------------------------------

/// `endpoint.pointer("/playlistEditEndpoint/actions/0")`.
pub open spec fn edit_action_at(endpoint: JsonV) -> Option<JsonV> {
    index0(get_opt(get(endpoint, "playlistEditEndpoint"@), "actions"@))
}

/// The order a menu entry names, read off its payload (never its label, which is localised):
/// the edit action of a playlist you own, else the percent-encoded `params` of a view-only one.
pub open spec fn selected_sort_of(item: JsonV) -> Option<PlaylistSort> {
    match get(item, "serviceEndpoint"@) {
        None => None,
        Some(endpoint) => match edit_action_at(endpoint) {
            Some(action) => sort_from_edit_action(action),
            None => match str_value(get_opt(get(endpoint, "browseEndpoint"@), "params"@)) {
                Some(p) => match percent_decoded(p) {
                    Some(d) => sort_from_params(d),
                    None => None,
                },
                None => None,
            },
        },
    }
}

/// Read a sort out of a menu entry, from whichever endpoint flavour the list uses.
pub fn selected_sort(item: &Json) -> (r: Option<PlaylistSort>)
    ensures
        r == selected_sort_of(item@),
{
    let endpoint = match get_member(item, "serviceEndpoint") {
        Some(e) => e,
        None => {
            return None;
        },
    };
    let edit = get_member(endpoint, "playlistEditEndpoint");
    let actions = get_member_opt(edit, "actions");
    match pointer_index0(actions) {
        Some(action) => {
            return PlaylistSort::from_edit_action(action);
        },
        None => {},
    }
    let browse = get_member(endpoint, "browseEndpoint");
    let params = match as_str(get_member_opt(browse, "params")) {
        Some(p) => p,
        None => {
            return None;
        },
    };
    match percent_decode(params.as_str()) {
        Some(decoded) => PlaylistSort::from_params(decoded.as_str()),
        None => None,
    }
}

/// Whether a menu entry is marked selected (`selected: true`).
pub open spec fn is_selected_item(item: JsonV) -> bool {
    get(item, "selected"@) == Some(JsonV::Bool(true))
}

/// Whether a menu entry writes to the account (`serviceEndpoint.playlistEditEndpoint`).
pub open spec fn is_edit_item(item: JsonV) -> bool {
    get_opt(get(item, "serviceEndpoint"@), "playlistEditEndpoint"@) is Some
}

/// The first selected entry of a menu.
pub open spec fn first_selected(items: Seq<JsonV>) -> Option<JsonV>
    decreases items.len(),
{
    if items.len() == 0 {
        None
    } else if is_selected_item(items[0]) {
        Some(items[0])
    } else {
        first_selected(items.drop_first())
    }
}

/// The entries of the track shelf's sort menu.
pub open spec fn sort_menu_items_of(root: JsonV) -> Option<Seq<JsonV>> {
    match track_shelf_of(root) {
        None => None,
        Some(shelf) => match first_of(under(shelf, "sortFilterSubMenuRenderer"@)) {
            None => None,
            Some(menu) => match get(menu, "subMenuItems"@) {
                Some(JsonV::Array(items)) => Some(items),
                _ => None,
            },
        },
    }
}

/// The track shelf's sort menu: the order the first selected entry names, and whether any entry
/// writes to the account.
pub open spec fn sort_menu_of(root: JsonV) -> Option<SortMenu> {
    match sort_menu_items_of(root) {
        None => None,
        Some(items) => Some(SortMenu {
            selected: match first_selected(items) {
                Some(item) => selected_sort_of(item),
                None => None,
            },
            editable: exists|i: int| 0 <= i < items.len() && #[trigger] is_edit_item(items[i]),
        }),
    }
}

/// The track shelf's sort menu. Scoped to that shelf: an owned playlist's page carries a
/// suggestions section of its own, and the library grids have an unrelated sort menu.
pub fn sort_menu(root: &Json) -> (r: Option<SortMenu>)
    ensures
        r == sort_menu_of(root@),
{
    let shelf = match track_shelf(root) {
        Some(s) => s,
        None => {
            return None;
        },
    };
    let menu = match find_first(shelf, "sortFilterSubMenuRenderer") {
        Some(m) => m,
        None => {
            return None;
        },
    };
    let items = match get_member(menu, "subMenuItems") {
        Some(Json::Array(items)) => items,
        _ => {
            return None;
        },
    };
    proof {
        lemma_items_view(items@);
    }
    let ghost vs = items_view(items@);
    assert(json_view(Json::Array(*items)) == JsonV::Array(vs));
    assert(sort_menu_items_of(root@) == Some(vs));
    let mut selected: Option<PlaylistSort> = None;
    let mut found = false;
    let mut editable = false;
    assert(vs.take(0) =~= Seq::<JsonV>::empty());
    assert(vs.skip(0) =~= vs);
    let mut i: usize = 0;
    while i < items.len()
        invariant
            0 <= i <= items@.len(),
            vs == items_view(items@),
            vs.len() == items@.len(),
            forall|k: int| 0 <= k < items@.len() ==> #[trigger] vs[k] == json_view(items@[k]),
            found == (first_selected(vs.take(i as int)) is Some),
            found ==> first_selected(vs) == first_selected(vs.take(i as int)),
            found ==> selected == selected_sort_of(first_selected(vs)->0),
            !found ==> selected is None,
            !found ==> first_selected(vs) == first_selected(vs.skip(i as int)),
            editable == (exists|k: int| 0 <= k < i && #[trigger] is_edit_item(vs[k])),
        decreases items@.len() - i,
    {
        let item = &items[i];
        proof {
            lemma_first_selected_step(vs, i as int);
            assert(vs.skip(i as int).drop_first() =~= vs.skip(i + 1));
            assert(vs.skip(i as int)[0] == vs[i as int]);
        }
        if !found {
            let sel = as_bool(get_member(item, "selected"));
            if sel == Some(true) {
                found = true;
                selected = selected_sort(item);
            }
        }
        let se = get_member(item, "serviceEndpoint");
        let is_edit = get_member_opt(se, "playlistEditEndpoint").is_some();
        assert(is_edit == is_edit_item(vs[i as int]));
        if is_edit {
            editable = true;
        }
        i = i + 1;
    }
    assert(vs.take(items@.len() as int) =~= vs);
    proof {
        if !found {
            assert(vs.skip(items@.len() as int) =~= Seq::<JsonV>::empty());
        }
    }
    Some(SortMenu { selected, editable })
}

proof fn lemma_first_selected_step(vs: Seq<JsonV>, i: int)
    requires
        0 <= i < vs.len(),
    ensures
        first_selected(vs.take(i + 1)) == (if first_selected(vs.take(i)) is Some {
            first_selected(vs.take(i))
        } else if is_selected_item(vs[i]) {
            Some(vs[i])
        } else {
            None
        }),
        first_selected(vs.take(i)) is Some ==> first_selected(vs) == first_selected(vs.take(i)),
    decreases i,
{
    if i == 0 {
        assert(vs.take(1).drop_first() =~= Seq::<JsonV>::empty());
        assert(vs.take(0) =~= Seq::<JsonV>::empty());
    } else {
        lemma_first_selected_step(vs.drop_first(), i - 1);
        assert(vs.take(i + 1).drop_first() =~= vs.drop_first().take(i));
        assert(vs.take(i).drop_first() =~= vs.drop_first().take(i - 1));
    }
}

} // verus!

verus! {

/// What the sort-order literals are made of: where they differ.
proof fn sort_literal_facts()
    ensures
        "2ggA"@.len() == 4,
        "2ggECAIQAw=="@.len() == 12, "2ggECAIQAw=="@[6] == 'I', "2ggECAIQAw=="@[8] == 'A', "2ggECAIQAw=="@[9] == 'w',
        "2ggECAEQAw=="@.len() == 12, "2ggECAEQAw=="@[6] == 'E', "2ggECAEQAw=="@[8] == 'A', "2ggECAEQAw=="@[9] == 'w',
        "2ggECAIQBA=="@.len() == 12, "2ggECAIQBA=="@[6] == 'I', "2ggECAIQBA=="@[8] == 'B', "2ggECAIQBA=="@[9] == 'A',
        "2ggECAEQBA=="@.len() == 12, "2ggECAEQBA=="@[6] == 'E', "2ggECAEQBA=="@[8] == 'B', "2ggECAEQBA=="@[9] == 'A',
        "2ggECAEQBQ=="@.len() == 12, "2ggECAEQBQ=="@[6] == 'E', "2ggECAEQBQ=="@[8] == 'B', "2ggECAEQBQ=="@[9] == 'Q',
        "2ggECAIQBQ=="@.len() == 12, "2ggECAIQBQ=="@[6] == 'I', "2ggECAIQBQ=="@[8] == 'B', "2ggECAIQBQ=="@[9] == 'Q',
        "2ggECAEQBg=="@.len() == 12, "2ggECAEQBg=="@[6] == 'E', "2ggECAEQBg=="@[8] == 'B', "2ggECAEQBg=="@[9] == 'g',
        "2ggECAIQBg=="@.len() == 12, "2ggECAIQBg=="@[6] == 'I', "2ggECAIQBg=="@[8] == 'B', "2ggECAIQBg=="@[9] == 'g',
        "2ggECAEQBw=="@.len() == 12, "2ggECAEQBw=="@[6] == 'E', "2ggECAEQBw=="@[8] == 'B', "2ggECAEQBw=="@[9] == 'w',
        "2ggECAIQBw=="@.len() == 12, "2ggECAIQBw=="@[6] == 'I', "2ggECAIQBw=="@[8] == 'B', "2ggECAIQBw=="@[9] == 'w',
{
    reveal_strlit("2ggA");
    reveal_strlit("2ggECAIQAw==");
    reveal_strlit("2ggECAEQAw==");
    reveal_strlit("2ggECAIQBA==");
    reveal_strlit("2ggECAEQBA==");
    reveal_strlit("2ggECAEQBQ==");
    reveal_strlit("2ggECAIQBQ==");
    reveal_strlit("2ggECAEQBg==");
    reveal_strlit("2ggECAIQBg==");
    reveal_strlit("2ggECAEQBw==");
    reveal_strlit("2ggECAIQBw==");
}

/// Reading an order back from one of its `params` names the order the list comes back in: the
/// forward `params` of every order read back as that order; the reversed ones as the same order,
/// except that reversing a date order gives the other date order.
pub proof fn law_params_read_back(s: PlaylistSort)
    ensures
        sort_from_params(sort_params(s, false)) == Some(s),
        sort_from_params(sort_params(s, true)) == Some(
            if s == PlaylistSort::Newest { PlaylistSort::Oldest }
            else if s == PlaylistSort::Oldest { PlaylistSort::Newest }
            else { s }),
{
    sort_literal_facts();
}

/// Reversing a date order lands on the other date order, the stored order has no reverse, and
/// every other order has a reverse of its own.
pub proof fn law_reversed_params(s: PlaylistSort)
    ensures
        sort_params(PlaylistSort::Newest, true) == sort_params(PlaylistSort::Oldest, false),
        sort_params(PlaylistSort::Oldest, true) == sort_params(PlaylistSort::Newest, false),
        sort_params(PlaylistSort::Default, true) == sort_params(PlaylistSort::Default, false),
        (s == PlaylistSort::Title || s == PlaylistSort::Artist || s == PlaylistSort::Album || s == PlaylistSort::Top)
            ==> sort_params(s, true) != sort_params(s, false),
{
    sort_literal_facts();
}

/// Every order's edit action reads back as that order.
pub proof fn law_edit_action_read_back(s: PlaylistSort)
    ensures
        sort_from_edit_action(edit_action_json(s)) == Some(s),
{
    reveal_strlit("action");
    reveal_strlit("playlistVideoOrder");
    reveal_strlit("playlistDynamicSortPreference");
    reveal_strlit("ACTION_SET_PLAYLIST_VIDEO_ORDER");
    reveal_strlit("ACTION_SET_PLAYLIST_DYNAMIC_SORT_PREFERENCE");
    assert("action"@.len() == 6);
    assert("playlistVideoOrder"@.len() == 18);
    assert("playlistDynamicSortPreference"@.len() == 29);
    assert("ACTION_SET_PLAYLIST_VIDEO_ORDER"@.len() == 31);
    assert("ACTION_SET_PLAYLIST_DYNAMIC_SORT_PREFERENCE"@.len() == 43);
    let fields = seq![
        ("action"@, JsonV::Str(edit_action_name(s))),
        (edit_field(s), JsonV::Int(edit_value(s))),
    ];
    assert(fields.drop_first() =~= seq![(edit_field(s), JsonV::Int(edit_value(s)))]);
    assert(fields.drop_first().drop_first() =~= Seq::<(Seq<char>, JsonV)>::empty());
    reveal_with_fuel(member_of, 3);
    assert("action"@ != "playlistVideoOrder"@);
    assert("action"@ != "playlistDynamicSortPreference"@);
    assert("playlistVideoOrder"@ != "playlistDynamicSortPreference"@);
    assert("ACTION_SET_PLAYLIST_VIDEO_ORDER"@ != "ACTION_SET_PLAYLIST_DYNAMIC_SORT_PREFERENCE"@);
}

/// An edit action only ever sends values YouTube accepts: a dynamic sort preference in 1..3
/// (anything else answers HTTP 500), a video order in {0, 1, 2, 6}.
pub proof fn law_edit_action_values(s: PlaylistSort)
    ensures
        edit_field(s) == "playlistDynamicSortPreference"@ ==> 1 <= edit_value(s) <= 3,
        edit_field(s) == "playlistVideoOrder"@ ==> (edit_value(s) == 0 || edit_value(s) == 1
            || edit_value(s) == 2 || edit_value(s) == 6),
{
    reveal_strlit("playlistVideoOrder");
    reveal_strlit("playlistDynamicSortPreference");
    assert("playlistVideoOrder"@.len() == 18);
    assert("playlistDynamicSortPreference"@.len() == 29);
}

} // verus!
