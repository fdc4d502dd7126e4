//! Whole pages assembled from a browse response: the artist page, its card rows, the home feed
//! and the album page. The track rows and cards inside them are read by the row parser and
//! handed in; everything around them is read here.
use vstd::prelude::*;

use crate::browse::{
    album_in_library, album_playlist_id, album_playlist_id_of, continuation_token, continuation_token_of,
    in_library_of, library_toggle_playlist_id, library_toggle_playlist_id_of, or_else, playlist_header,
    browse_target, kind_from_id, playlist_header_of, radio_playlist_id, radio_playlist_id_of, target_id, shelf_continuation, shelf_continuation_of,
    ArtistCarousel, ArtistPage, ArtistRun, AlbumPage, BrowseItem, HomePage, SearchResults, Section, SongItem,
};
use crate::header::{
    album_description, album_description_of, artist_subscription, artist_subscription_of, carousel_header,
    card_shelf_target, card_shelf_target_of, carousel_header_of, chip_view, chips_of, home_chips, last_thumbnail,
    last_thumbnail_of, last_thumbnail_opt, opt_chars, runs_text, runs_text_of, top_songs_id, top_songs_id_of,
    two_row_target, two_row_target_of,
};
use crate::json::{
    find_all, find_first, find_first_str, find_first_str_spec, first_of, get, get_member, get_member_opt, get_opt, items_view, json_view,
    lemma_items_view, opt_view, str_value, under, views, Json, JsonV,
};

verus! {

// --- the artist page -----------------------------------------------------------------------------

/// The artist page's header: the first immersive header, else the first plain one.
pub open spec fn artist_header_of(root: JsonV) -> Option<JsonV> {
    or_else(first_of(under(root, "musicImmersiveHeaderRenderer"@)), first_of(under(root, "musicHeaderRenderer"@)))
}

/// The artist page's header.
pub fn artist_header<'a>(root: &'a Json) -> (r: Option<&'a Json>)
    ensures
        opt_view(r) == artist_header_of(root@),
{
    match find_first(root, "musicImmersiveHeaderRenderer") {
        Some(h) => Some(h),
        None => find_first(root, "musicHeaderRenderer"),
    }
}

/// The hero image: the header's own `thumbnail` subtree (not the subscribe button's avatar),
/// else anything in the header.
pub open spec fn artist_thumbnail_of(header: Option<JsonV>) -> Option<Seq<char>> {
    or_else(last_thumbnail_opt(get_opt(header, "thumbnail"@)), last_thumbnail_opt(header))
}

/// The `contents` of the first section list that has them.
pub open spec fn first_section_contents(lists: Seq<JsonV>) -> Option<Seq<JsonV>>
    decreases lists.len(),
{
    if lists.len() == 0 {
        None
    } else {
        match get(lists[0], "contents"@) {
            Some(JsonV::Array(c)) => Some(c),
            _ => first_section_contents(lists.drop_first()),
        }
    }
}

/// The nodes of the page's section list.
pub open spec fn section_contents_of(root: JsonV) -> Option<Seq<JsonV>> {
    first_section_contents(under(root, "sectionListRenderer"@))
}

/// The nodes of the page's section list.
fn section_contents<'a>(root: &'a Json) -> (r: Option<&'a Vec<Json>>)
    ensures
        match r {
            Some(c) => section_contents_of(root@) == Some(items_view(c@)),
            None => section_contents_of(root@) is None,
        },
{
    let all = find_all(root, "sectionListRenderer");
    let ghost vs = views(all@);
    assert(vs.skip(0) =~= vs);
    let mut i: usize = 0;
    while i < all.len()
        invariant
            0 <= i <= all@.len(),
            vs == views(all@),
            vs == under(root@, "sectionListRenderer"@),
            first_section_contents(vs) == first_section_contents(vs.skip(i as int)),
        decreases all@.len() - i,
    {
        assert(vs.skip(i as int).drop_first() =~= vs.skip(i + 1));
        assert(vs.skip(i as int)[0] == all@[i as int]@);
        match get_member(all[i], "contents") {
            Some(Json::Array(c)) => {
                proof {
                    lemma_items_view(c@);
                    assert(json_view(Json::Array(*c)) == JsonV::Array(items_view(c@)));
                }
                return Some(c);
            },
            _ => {},
        }
        i = i + 1;
    }
    None
}

/// The first list shelf among the section's nodes.
pub open spec fn first_list_shelf(nodes: Seq<JsonV>) -> Option<JsonV>
    decreases nodes.len(),
{
    if nodes.len() == 0 {
        None
    } else {
        match get(nodes[0], "musicShelfRenderer"@) {
            Some(s) => Some(s),
            None => first_list_shelf(nodes.drop_first()),
        }
    }
}

/// The artist's top-songs shelf: the first list shelf of the page's section list.
pub open spec fn artist_list_shelf_of(root: JsonV) -> Option<JsonV> {
    match section_contents_of(root) {
        Some(c) => first_list_shelf(c),
        None => None,
    }
}

/// The artist's top-songs shelf, whose rows the row parser reads.
pub fn artist_list_shelf<'a>(root: &'a Json) -> (r: Option<&'a Json>)
    ensures
        opt_view(r) == artist_list_shelf_of(root@),
{
    let c = match section_contents(root) {
        Some(c) => c,
        None => {
            return None;
        },
    };
    proof {
        lemma_items_view(c@);
    }
    let ghost vs = items_view(c@);
    assert(vs.skip(0) =~= vs);
    let mut i: usize = 0;
    while i < c.len()
        invariant
            0 <= i <= c@.len(),
            vs == items_view(c@),
            vs.len() == c@.len(),
            forall|k: int| 0 <= k < c@.len() ==> #[trigger] vs[k] == json_view(c@[k]),
            section_contents_of(root@) == Some(vs),
            first_list_shelf(vs) == first_list_shelf(vs.skip(i as int)),
        decreases c@.len() - i,
    {
        assert(vs.skip(i as int).drop_first() =~= vs.skip(i + 1));
        assert(vs.skip(i as int)[0] == vs[i as int]);
        match get_member(&c[i], "musicShelfRenderer") {
            Some(s) => {
                return Some(s);
            },
            None => {},
        }
        i = i + 1;
    }
    None
}

/// The card rows among the section's nodes: every carousel that is not a list shelf, in order.
pub open spec fn carousels_of(nodes: Seq<JsonV>) -> Seq<JsonV>
    decreases nodes.len(),
{
    if nodes.len() == 0 {
        Seq::empty()
    } else {
        carousels_of(nodes.drop_last()) + match get(nodes.last(), "musicShelfRenderer"@) {
            Some(_) => Seq::empty(),
            None => match get(nodes.last(), "musicCarouselShelfRenderer"@) {
                Some(c) => seq![c],
                None => Seq::empty(),
            },
        }
    }
}

/// Whether a section node is a card row: a carousel, and not a list shelf.
pub open spec fn is_card_row_node(n: JsonV) -> bool {
    get(n, "musicShelfRenderer"@) is None && get(n, "musicCarouselShelfRenderer"@) is Some
}

/// The artist page keeps every card row: one carousel for each node that is a carousel and not
/// a list shelf, in the nodes' order, and nothing else.
pub proof fn law_artist_card_rows(nodes: Seq<JsonV>)
    ensures
        carousels_of(nodes) == nodes.filter(|n: JsonV| is_card_row_node(n)).map_values(
            |n: JsonV| get(n, "musicCarouselShelfRenderer"@)->0,
        ),
        carousels_of(nodes).len() == nodes.filter(|n: JsonV| is_card_row_node(n)).len(),
    decreases nodes.len(),
{
    let f = |n: JsonV| get(n, "musicCarouselShelfRenderer"@)->0;
    let p = |n: JsonV| is_card_row_node(n);
    if nodes.len() == 0 {
        assert(nodes.filter(p) =~= Seq::<JsonV>::empty()) by {
            reveal(Seq::filter);
        }
        assert(nodes.filter(p).map_values(f) =~= Seq::<JsonV>::empty());
    } else {
        law_artist_card_rows(nodes.drop_last());
        assert(nodes =~= nodes.drop_last().push(nodes.last()));
        nodes.drop_last().lemma_filter_push(nodes.last(), p);
        if p(nodes.last()) {
            assert(nodes.filter(p).map_values(f) =~= nodes.drop_last().filter(p).map_values(f).push(f(nodes.last())));
        }
    }
}

/// The artist page's card rows (Albums, Singles, Videos, …).
pub open spec fn artist_carousels_of(root: JsonV) -> Seq<JsonV> {
    match section_contents_of(root) {
        Some(c) => carousels_of(c),
        None => Seq::empty(),
    }
}

/// The artist page's card rows, whose cards the card parser reads.
pub fn artist_carousels<'a>(root: &'a Json) -> (r: Vec<&'a Json>)
    ensures
        views(r@) == artist_carousels_of(root@),
{
    let mut out: Vec<&'a Json> = Vec::new();
    let c = match section_contents(root) {
        Some(c) => c,
        None => {
            assert(views(out@) =~= Seq::<JsonV>::empty());
            return out;
        },
    };
    proof {
        lemma_items_view(c@);
    }
    let ghost vs = items_view(c@);
    assert(vs.take(0) =~= Seq::<JsonV>::empty());
    assert(views(out@) =~= Seq::<JsonV>::empty());
    let mut i: usize = 0;
    while i < c.len()
        invariant
            0 <= i <= c@.len(),
            vs == items_view(c@),
            vs.len() == c@.len(),
            forall|k: int| 0 <= k < c@.len() ==> #[trigger] vs[k] == json_view(c@[k]),
            section_contents_of(root@) == Some(vs),
            views(out@) == carousels_of(vs.take(i as int)),
        decreases c@.len() - i,
    {
        assert(vs.take(i + 1).drop_last() =~= vs.take(i as int));
        assert(vs.take(i + 1).last() == vs[i as int]);
        let ghost before = out@;
        match get_member(&c[i], "musicShelfRenderer") {
            Some(_) => {},
            None => match get_member(&c[i], "musicCarouselShelfRenderer") {
                Some(car) => {
                    out.push(car);
                    assert(views(out@) =~= views(before).push(car@));
                },
                None => {},
            },
        }
        i = i + 1;
    }
    assert(vs.take(c@.len() as int) =~= vs);
    out
}

/// An artist page (`browse` on a `UC…` channel) around its top songs and card rows: the header's
/// name, hero image and description, the subscription and audience, the "Show all" playlist of
/// the top-songs shelf, and the artist radio from the header.
pub fn artist_page(root: &Json, browse_id: &str, top_songs: Vec<SongItem>, sections: Vec<ArtistCarousel>)
    -> (r: ArtistPage)
    ensures
        opt_chars(r.name) == runs_text_of(get_opt(artist_header_of(root@), "title"@)),
        opt_chars(r.description) == runs_text_of(get_opt(artist_header_of(root@), "description"@)),
        opt_chars(r.thumbnail) == artist_thumbnail_of(artist_header_of(root@)),
        (r.channel_id@, r.subscribed, opt_chars(r.subscribers), opt_chars(r.monthly_listeners))
            == artist_subscription_of(artist_header_of(root@), browse_id@),
        opt_chars(r.top_songs_id) == (match artist_list_shelf_of(root@) {
            Some(s) => top_songs_id_of(s),
            None => None,
        }),
        opt_chars(r.radio_playlist_id) == (match artist_header_of(root@) {
            Some(h) => radio_playlist_id_of(h),
            None => None,
        }),
        r.top_songs == top_songs,
        r.sections == sections,
{
    let header = artist_header(root);
    let name = runs_text(get_member_opt(header, "title"));
    let description = runs_text(get_member_opt(header, "description"));
    let thumbnail = match get_member_opt(header, "thumbnail") {
        Some(t) => match last_thumbnail(t) {
            Some(u) => Some(u),
            None => match header {
                Some(h) => last_thumbnail(h),
                None => None,
            },
        },
        None => match header {
            Some(h) => last_thumbnail(h),
            None => None,
        },
    };
    let (channel_id, subscribed, subscribers, monthly_listeners) = artist_subscription(header, browse_id);
    let top_songs_id = match artist_list_shelf(root) {
        Some(s) => top_songs_id(s),
        None => None,
    };
    let radio = match header {
        Some(h) => radio_playlist_id(h),
        None => None,
    };
    ArtistPage {
        name,
        thumbnail,
        description,
        subscribers,
        monthly_listeners,
        channel_id,
        subscribed,
        radio_playlist_id: radio,
        top_songs,
        top_songs_id,
        sections,
    }
}

/// A card row on the artist page around its cards: none when no card survived, else the
/// carousel's title and "More" target with these cards.
pub fn artist_carousel(node: &Json, items: Vec<BrowseItem>) -> (r: Option<ArtistCarousel>)
    ensures
        items@.len() == 0 ==> r is None,
        items@.len() > 0 ==> (r matches Some(c) && c.items == items
            && (c.title@, opt_chars(c.more_browse_id), opt_chars(c.more_params)) == carousel_header_of(node@)),
{
    if items.len() == 0 {
        return None;
    }
    let (title, more_browse_id, more_params) = carousel_header(node);
    Some(ArtistCarousel { title, items, more_browse_id, more_params })
}

// --- the home feed -----------------------------------------------------------------------------

/// A home shelf around its cards: none when no card survived, else the shelf's title and "More"
/// target with these cards.
pub fn home_section(shelf: &Json, items: Vec<BrowseItem>) -> (r: Option<Section>)
    ensures
        items@.len() == 0 ==> r is None,
        items@.len() > 0 ==> (r matches Some(s) && s.items == items
            && (s.title@, opt_chars(s.more_browse_id), opt_chars(s.more_params)) == carousel_header_of(shelf@)),
{
    if items.len() == 0 {
        return None;
    }
    let (title, more_browse_id, more_params) = carousel_header(shelf);
    Some(Section { title, items, more_browse_id, more_params })
}

/// The home feed's shelves, whose cards the card parser reads: every carousel, in order.
pub fn home_shelves<'a>(root: &'a Json) -> (r: Vec<&'a Json>)
    ensures
        views(r@) == under(root@, "musicCarouselShelfRenderer"@),
{
    find_all(root, "musicCarouselShelfRenderer")
}

/// The home feed (`FEmusic_home`, or a chip's feed) around its sections: the filter chips and the
/// paging token for more shelves.
pub fn home_page(root: &Json, sections: Vec<Section>) -> (r: HomePage)
    ensures
        r.chips@.map_values(|c: crate::browse::HomeChip| chip_view(c)) == chips_of(under(root@, "chipCloudChipRenderer"@)),
        r.sections == sections,
        opt_chars(r.continuation) == continuation_token_of(root@),
{
    let chips = home_chips(root);
    let continuation = continuation_token(root);
    proof {
        assert(opt_chars(continuation) == continuation_token_of(root@));
    }
    HomePage { chips, sections, continuation }
}

// --- the album page ------------------------------------------------------------------------------

fn clone_opt(o: &Option<String>) -> (r: Option<String>)
    ensures
        r == *o,
{
    match o {
        Some(s) => Some(s.clone()),
        None => None,
    }
}

fn copy_runs(runs: &Vec<ArtistRun>) -> (r: Vec<ArtistRun>)
    ensures
        r@ == runs@,
{
    let mut out: Vec<ArtistRun> = Vec::new();
    let mut i: usize = 0;
    while i < runs.len()
        invariant
            0 <= i <= runs@.len(),
            out@ == runs@.take(i as int),
        decreases runs@.len() - i,
    {
        let run = &runs[i];
        out.push(ArtistRun { text: run.text.clone(), id: clone_opt(&run.id) });
        assert(out@ =~= runs@.take(i + 1));
        i = i + 1;
    }
    assert(runs@.take(runs@.len() as int) =~= runs@);
    out
}

/// An album track row as the album page shows it. Track rows carry no cover of their own, so one
/// without takes the album's. On a single-artist album YouTube leaves the artist column empty
/// (the header names the artist), so a row without artists takes the header's artist line, its
/// links, and its channel unless the row has one; a compilation's rows name their own artists and
/// keep them. A row without an album takes the album's title. Everything else stays.
pub open spec fn album_row_ok(
    row: SongItem,
    out: SongItem,
    cover: Option<String>,
    artist: Option<String>,
    artist_id: Option<String>,
    runs: Seq<ArtistRun>,
    title: Option<String>,
) -> bool {
    &&& out.video_id == row.video_id
    &&& out.title == row.title
    &&& out.duration == row.duration
    &&& out.is_video == row.is_video
    &&& out.explicit == row.explicit
    &&& out.queued == row.queued
    &&& out.queued_end == row.queued_end
    &&& out.queued_from == row.queued_from
    &&& out.queued_by == row.queued_by
    &&& out.autoplay == row.autoplay
    &&& out.set_video_id == row.set_video_id
    &&& out.thumbnail == (if row.thumbnail is None { cover } else { row.thumbnail })
    &&& out.album == (if row.album is None { title } else { row.album })
    &&& if row.artists@.len() == 0 {
        &&& out.artists@ == (match artist { Some(a) => a@, None => Seq::<char>::empty() })
        &&& out.artist_id == (if row.artist_id is Some { row.artist_id } else { artist_id })
        &&& out.artist_runs@ == runs
    } else {
        &&& out.artists == row.artists
        &&& out.artist_id == row.artist_id
        &&& out.artist_runs == row.artist_runs
    }
}

/// An album page (`browse` on an `MPRE…` id) around its track rows. The header gives the title,
/// the type-and-year and count lines, the artist line (`straplineTextOne`) and avatar
/// (`straplineThumbnail`), and the cover (its own `thumbnail` subtree, not the avatar). The
/// description is the header's or the description shelf's; the audio playlist is the one the
/// track rows name, else the one behind the header's save button, whose toggle also says whether
/// the album is in the library. The artist line's channel and links, and whether the header wears
/// the explicit badge, are read with the rows and handed in. Each row is completed from the header
/// (`album_row_ok`).
pub fn album_page(
    root: &Json,
    rows: Vec<SongItem>,
    artist_id: Option<String>,
    artist_runs: Vec<ArtistRun>,
    explicit: bool,
) -> (r: AlbumPage)
    ensures
        opt_chars(r.title) == runs_text_of(get_opt(playlist_header_of(root@), "title"@)),
        opt_chars(r.subtitle) == runs_text_of(get_opt(playlist_header_of(root@), "subtitle"@)),
        opt_chars(r.second_subtitle) == runs_text_of(get_opt(playlist_header_of(root@), "secondSubtitle"@)),
        opt_chars(r.artist) == runs_text_of(get_opt(playlist_header_of(root@), "straplineTextOne"@)),
        opt_chars(r.artist_thumbnail) == last_thumbnail_opt(get_opt(playlist_header_of(root@), "straplineThumbnail"@)),
        opt_chars(r.thumbnail) == last_thumbnail_opt(get_opt(playlist_header_of(root@), "thumbnail"@)),
        opt_chars(r.description) == album_description_of(root@, playlist_header_of(root@)),
        opt_chars(r.continuation) == shelf_continuation_of(root@),
        opt_chars(r.playlist_id) == or_else(
            album_playlist_id_of(root@),
            library_toggle_playlist_id_of(playlist_header_of(root@)),
        ),
        r.in_library == in_library_of(playlist_header_of(root@)),
        r.artist_id == artist_id,
        r.artist_runs == artist_runs,
        r.explicit == explicit,
        r.items@.len() == rows@.len(),
        forall|k: int| 0 <= k < rows@.len() ==> album_row_ok(rows@[k], #[trigger] r.items@[k], r.thumbnail,
            r.artist, r.artist_id, r.artist_runs@, r.title),
{
    let header = playlist_header(root);
    let title = runs_text(get_member_opt(header, "title"));
    let subtitle = runs_text(get_member_opt(header, "subtitle"));
    let second_subtitle = runs_text(get_member_opt(header, "secondSubtitle"));
    let artist = runs_text(get_member_opt(header, "straplineTextOne"));
    let artist_thumbnail = match get_member_opt(header, "straplineThumbnail") {
        Some(t) => last_thumbnail(t),
        None => None,
    };
    let thumbnail = match get_member_opt(header, "thumbnail") {
        Some(t) => last_thumbnail(t),
        None => None,
    };
    let description = album_description(root, header);
    let continuation = shelf_continuation(root);
    let playlist_id = match album_playlist_id(root) {
        Some(p) => Some(p),
        None => library_toggle_playlist_id(header),
    };
    let in_library = album_in_library(header);

    let n: usize = rows.len();
    let ghost orig = rows@;
    assert(orig.len() == n);
    let mut items: Vec<SongItem> = Vec::new();
    let mut rest = rows;
    let mut i: usize = 0;
    assert(orig.skip(0) =~= orig);
    while rest.len() > 0
        invariant
            orig.len() <= usize::MAX,
            i + rest@.len() == orig.len(),
            items@.len() == i,
            rest@ == orig.skip(i as int),
            forall|k: int| 0 <= k < i ==> album_row_ok(orig[k], #[trigger] items@[k], thumbnail, artist,
                artist_id, artist_runs@, title),
        decreases rest@.len(),
    {
        let row = rest.remove(0);
        assert(row == orig[i as int]);
        assert(rest@ =~= orig.skip(i + 1));
        let SongItem {
            video_id, title: row_title, artists, artist_id: row_artist_id, artist_runs: row_runs, album, thumbnail: row_thumb,
            duration, is_video, explicit: row_explicit, queued, queued_end, queued_from, queued_by, autoplay, set_video_id,
        } = row;
        let new_thumb = match row_thumb {
            Some(t) => Some(t),
            None => clone_opt(&thumbnail),
        };
        let new_album = match album {
            Some(a) => Some(a),
            None => clone_opt(&title),
        };
        let (new_artists, new_artist_id, new_runs) = if artists.as_str().is_empty() {
            let a = match &artist {
                Some(a) => a.clone(),
                None => String::new(),
            };
            let id = match row_artist_id {
                Some(x) => Some(x),
                None => clone_opt(&artist_id),
            };
            (a, id, copy_runs(&artist_runs))
        } else {
            (artists, row_artist_id, row_runs)
        };
        items.push(SongItem {
            video_id,
            title: row_title,
            artists: new_artists,
            artist_id: new_artist_id,
            artist_runs: new_runs,
            album: new_album,
            thumbnail: new_thumb,
            duration,
            is_video,
            explicit: row_explicit,
            queued,
            queued_end,
            queued_from,
            queued_by,
            autoplay,
            set_video_id,
        });
        i = i + 1;
    }
    AlbumPage {
        title,
        artist,
        artist_id,
        artist_runs,
        artist_thumbnail,
        subtitle,
        second_subtitle,
        description,
        thumbnail,
        items,
        continuation,
        explicit,
        playlist_id,
        in_library,
    }
}

// --- cards -------------------------------------------------------------------------------------

/// What a song card's subtitle runs and video type say, read by the row parser: the artist alone
/// (never the whole "Artist • 1.7B views" line the card displays), the length, the artist links,
/// and whether it is a music video.
#[derive(Debug)]
pub struct SongRuns {
    pub artists: Option<String>,
    pub duration: Option<String>,
    pub artist_runs: Vec<ArtistRun>,
    pub is_video: bool,
}

/// A card built from its title, subtitle, image and target: a song card (the target plays a
/// video) takes the song runs' artist as its subtitle when there is one, and their length, links
/// and video flag; a card that navigates keeps its whole subtitle and has none of those. There is
/// no card without a title or a target.
pub open spec fn card_ok(
    r: Option<BrowseItem>,
    title: Option<Seq<char>>,
    subtitle: Option<Seq<char>>,
    thumbnail: Option<Seq<char>>,
    target: Option<(Seq<char>, Seq<char>)>,
    explicit: bool,
    song: SongRuns,
) -> bool {
    match (title, target) {
        (Some(t), Some((kind, id))) => r matches Some(c) && {
            &&& c.kind@ == kind
            &&& c.id@ == id
            &&& c.title@ == t
            &&& opt_chars(c.thumbnail) == thumbnail
            &&& c.explicit == explicit
            &&& if kind == "song"@ {
                &&& opt_chars(c.subtitle) == or_else(opt_chars(song.artists), subtitle)
                &&& c.duration == song.duration
                &&& c.artist_runs == song.artist_runs
                &&& c.is_video == song.is_video
            } else {
                &&& opt_chars(c.subtitle) == subtitle
                &&& c.duration is None
                &&& c.artist_runs@.len() == 0
                &&& !c.is_video
            }
        },
        _ => r is None,
    }
}

fn card(
    title: Option<String>,
    subtitle: Option<String>,
    thumbnail: Option<String>,
    target: Option<(&'static str, String)>,
    explicit: bool,
    song: SongRuns,
) -> (r: Option<BrowseItem>)
    ensures
        card_ok(r, opt_chars(title), opt_chars(subtitle), opt_chars(thumbnail), match target {
            Some((k, id)) => Some((k@, id@)),
            None => None,
        }, explicit, song),
{
    let t = match title {
        Some(t) => t,
        None => {
            return None;
        },
    };
    let (kind, id) = match target {
        Some(x) => x,
        None => {
            return None;
        },
    };
    if crate::text::str_eq(kind, "song") {
        let SongRuns { artists, duration, artist_runs, is_video } = song;
        let sub = match artists {
            Some(a) => Some(a),
            None => subtitle,
        };
        Some(BrowseItem { kind, id, title: t, subtitle: sub, thumbnail, duration, artist_runs, is_video, explicit })
    } else {
        Some(BrowseItem {
            kind,
            id,
            title: t,
            subtitle,
            thumbnail,
            duration: None,
            artist_runs: Vec::new(),
            is_video: false,
            explicit,
        })
    }
}

/// A two-row card (`musicTwoRowItemRenderer`: home shelves, library grids, artist carousels): its
/// title and subtitle runs, its largest thumbnail, and where it leads (`two_row_target`). Whether
/// it wears the explicit badge, and what its subtitle runs say of a song, are read with the rows
/// and handed in.
pub fn two_row_item(node: &Json, explicit: bool, song: SongRuns) -> (r: Option<BrowseItem>)
    ensures
        card_ok(r, runs_text_of(get(node@, "title"@)), runs_text_of(get(node@, "subtitle"@)),
            last_thumbnail_of(node@), two_row_target_of(node@), explicit, song),
{
    let title = runs_text(get_member(node, "title"));
    let subtitle = runs_text(get_member(node, "subtitle"));
    let thumbnail = last_thumbnail(node);
    let target = two_row_target(node);
    card(title, subtitle, thumbnail, target, explicit, song)
}

/// A search's top-result card (`musicCardShelfRenderer`): its title and subtitle runs, the
/// largest image of its `thumbnail` subtree, and where it leads (`card_shelf_target`). Whether it
/// wears the explicit badge, and what its subtitle runs and endpoint say of a song, are read with
/// the rows and handed in.
pub fn card_shelf_main(card_node: &Json, explicit: bool, song: SongRuns) -> (r: Option<BrowseItem>)
    ensures
        card_ok(r, runs_text_of(get(card_node@, "title"@)), runs_text_of(get(card_node@, "subtitle"@)),
            last_thumbnail_opt(get(card_node@, "thumbnail"@)), card_shelf_target_of(card_node@), explicit, song),
{
    let title = runs_text(get_member(card_node, "title"));
    let subtitle = runs_text(get_member(card_node, "subtitle"));
    let thumbnail = match get_member(card_node, "thumbnail") {
        Some(t) => last_thumbnail(t),
        None => None,
    };
    let target = card_shelf_target(card_node);
    card(title, subtitle, thumbnail, target, explicit, song)
}

// --- search --------------------------------------------------------------------------------------

/// The top-result cards among the search's section nodes, in order.
pub open spec fn search_cards_of(nodes: Seq<JsonV>) -> Seq<JsonV>
    decreases nodes.len(),
{
    if nodes.len() == 0 {
        Seq::empty()
    } else {
        search_cards_of(nodes.drop_last()) + match get(nodes.last(), "musicCardShelfRenderer"@) {
            Some(c) => seq![c],
            None => Seq::empty(),
        }
    }
}

/// The flat result rows among the search's section nodes: every list row inside a node that is
/// not a top-result card, in document order.
pub open spec fn search_rows_of(nodes: Seq<JsonV>) -> Seq<JsonV>
    decreases nodes.len(),
{
    if nodes.len() == 0 {
        Seq::empty()
    } else {
        search_rows_of(nodes.drop_last()) + match get(nodes.last(), "musicCardShelfRenderer"@) {
            Some(_) => Seq::empty(),
            None => under(nodes.last(), "musicResponsiveListItemRenderer"@),
        }
    }
}

/// The search's top-result cards are exactly the card nodes' cards, in order: one for each
/// section node that holds a `musicCardShelfRenderer`.
pub proof fn law_search_cards(nodes: Seq<JsonV>)
    ensures
        search_cards_of(nodes) == nodes.filter(|n: JsonV| get(n, "musicCardShelfRenderer"@) is Some).map_values(
            |n: JsonV| get(n, "musicCardShelfRenderer"@)->0,
        ),
    decreases nodes.len(),
{
    let f = |n: JsonV| get(n, "musicCardShelfRenderer"@)->0;
    let p = |n: JsonV| get(n, "musicCardShelfRenderer"@) is Some;
    if nodes.len() == 0 {
        assert(nodes.filter(p) =~= Seq::<JsonV>::empty()) by {
            reveal(Seq::filter);
        }
        assert(nodes.filter(p).map_values(f) =~= Seq::<JsonV>::empty());
    } else {
        law_search_cards(nodes.drop_last());
        assert(nodes =~= nodes.drop_last().push(nodes.last()));
        nodes.drop_last().lemma_filter_push(nodes.last(), p);
        if p(nodes.last()) {
            assert(nodes.filter(p).map_values(f) =~= nodes.drop_last().filter(p).map_values(f).push(f(nodes.last())));
        }
    }
}

/// An unfiltered search response's parts, for the card and row parsers: the top-result cards and
/// the flat result rows of its section list (none when it has no section list). The metadata
/// client returns one flat list, not titled per-type shelves.
pub fn search_parts<'a>(root: &'a Json) -> (r: (Vec<&'a Json>, Vec<&'a Json>))
    ensures
        views(r.0@) == (match section_contents_of(root@) { Some(c) => search_cards_of(c), None => Seq::empty() }),
        views(r.1@) == (match section_contents_of(root@) { Some(c) => search_rows_of(c), None => Seq::empty() }),
{
    let mut cards: Vec<&'a Json> = Vec::new();
    let mut rows: Vec<&'a Json> = Vec::new();
    assert(views(cards@) =~= Seq::<JsonV>::empty());
    assert(views(rows@) =~= Seq::<JsonV>::empty());
    let c = match section_contents(root) {
        Some(c) => c,
        None => {
            return (cards, rows);
        },
    };
    proof {
        lemma_items_view(c@);
    }
    let ghost vs = items_view(c@);
    assert(vs.take(0) =~= Seq::<JsonV>::empty());
    let mut i: usize = 0;
    while i < c.len()
        invariant
            0 <= i <= c@.len(),
            vs == items_view(c@),
            vs.len() == c@.len(),
            forall|k: int| 0 <= k < c@.len() ==> #[trigger] vs[k] == json_view(c@[k]),
            section_contents_of(root@) == Some(vs),
            views(cards@) == search_cards_of(vs.take(i as int)),
            views(rows@) == search_rows_of(vs.take(i as int)),
        decreases c@.len() - i,
    {
        assert(vs.take(i + 1).drop_last() =~= vs.take(i as int));
        assert(vs.take(i + 1).last() == vs[i as int]);
        let node = &c[i];
        match get_member(node, "musicCardShelfRenderer") {
            Some(card) => {
                let ghost before = cards@;
                cards.push(card);
                assert(views(cards@) =~= views(before).push(card@));
            },
            None => {
                let found = find_all(node, "musicResponsiveListItemRenderer");
                let ghost start = views(rows@);
                let mut j: usize = 0;
                assert(views(found@).take(0) =~= Seq::<JsonV>::empty());
                while j < found.len()
                    invariant
                        0 <= j <= found@.len(),
                        views(rows@) == start + views(found@).take(j as int),
                    decreases found@.len() - j,
                {
                    let ghost before = rows@;
                    rows.push(found[j]);
                    assert(views(rows@) =~= views(before).push(found@[j as int]@));
                    assert(views(found@).take(j + 1) =~= views(found@).take(j as int).push(found@[j as int]@));
                    j = j + 1;
                }
                assert(views(found@).take(found@.len() as int) =~= views(found@));
            },
        }
        i = i + 1;
    }
    assert(vs.take(c@.len() as int) =~= vs);
    (cards, rows)
}

/// The related rows under a top-result card: each `musicResponsiveListItemRenderer` of its
/// `contents`, in order.
pub open spec fn related_rows_of(nodes: Seq<JsonV>) -> Seq<JsonV>
    decreases nodes.len(),
{
    if nodes.len() == 0 {
        Seq::empty()
    } else {
        related_rows_of(nodes.drop_last()) + match get(nodes.last(), "musicResponsiveListItemRenderer"@) {
            Some(li) => seq![li],
            None => Seq::empty(),
        }
    }
}

/// The related rows under a top-result card are exactly its entries' list rows, in order.
pub proof fn law_related_rows(nodes: Seq<JsonV>)
    ensures
        related_rows_of(nodes) == nodes.filter(|n: JsonV| get(n, "musicResponsiveListItemRenderer"@) is Some)
            .map_values(|n: JsonV| get(n, "musicResponsiveListItemRenderer"@)->0),
    decreases nodes.len(),
{
    let f = |n: JsonV| get(n, "musicResponsiveListItemRenderer"@)->0;
    let p = |n: JsonV| get(n, "musicResponsiveListItemRenderer"@) is Some;
    if nodes.len() == 0 {
        assert(nodes.filter(p) =~= Seq::<JsonV>::empty()) by {
            reveal(Seq::filter);
        }
        assert(nodes.filter(p).map_values(f) =~= Seq::<JsonV>::empty());
    } else {
        law_related_rows(nodes.drop_last());
        assert(nodes =~= nodes.drop_last().push(nodes.last()));
        nodes.drop_last().lemma_filter_push(nodes.last(), p);
        if p(nodes.last()) {
            assert(nodes.filter(p).map_values(f) =~= nodes.drop_last().filter(p).map_values(f).push(f(nodes.last())));
        }
    }
}

/// The related rows under a top-result card, for the row parser.
pub fn card_related_rows<'a>(card_node: &'a Json) -> (r: Vec<&'a Json>)
    ensures
        views(r@) == (match get(card_node@, "contents"@) {
            Some(JsonV::Array(c)) => related_rows_of(c),
            _ => Seq::empty(),
        }),
{
    let mut out: Vec<&'a Json> = Vec::new();
    assert(views(out@) =~= Seq::<JsonV>::empty());
    let c = match get_member(card_node, "contents") {
        Some(Json::Array(c)) => c,
        _ => {
            return out;
        },
    };
    proof {
        lemma_items_view(c@);
        assert(json_view(Json::Array(*c)) == JsonV::Array(items_view(c@)));
    }
    let ghost vs = items_view(c@);
    assert(vs.take(0) =~= Seq::<JsonV>::empty());
    let mut i: usize = 0;
    while i < c.len()
        invariant
            0 <= i <= c@.len(),
            vs == items_view(c@),
            vs.len() == c@.len(),
            forall|k: int| 0 <= k < c@.len() ==> #[trigger] vs[k] == json_view(c@[k]),
            get(card_node@, "contents"@) == Some(JsonV::Array(vs)),
            views(out@) == related_rows_of(vs.take(i as int)),
        decreases c@.len() - i,
    {
        assert(vs.take(i + 1).drop_last() =~= vs.take(i as int));
        assert(vs.take(i + 1).last() == vs[i as int]);
        match get_member(&c[i], "musicResponsiveListItemRenderer") {
            Some(li) => {
                let ghost before = out@;
                out.push(li);
                assert(views(out@) =~= views(before).push(li@));
            },
            None => {},
        }
        i = i + 1;
    }
    assert(vs.take(c@.len() as int) =~= vs);
    out
}

/// Which bucket a search result goes in: albums, artists and playlists by kind, everything else
/// with the songs.
pub open spec fn bucket_of(kind: Seq<char>) -> int {
    if kind == "album"@ { 1 } else if kind == "artist"@ { 2 } else if kind == "playlist"@ { 3 } else { 0 }
}

/// The results of one bucket, in order.
pub open spec fn in_bucket(items: Seq<BrowseItem>, b: int) -> Seq<BrowseItem> {
    items.filter(|i: BrowseItem| bucket_of(i.kind@) == b)
}

/// The search buckets file each row by its kind: albums hold exactly the album rows, artists the
/// artist rows, playlists the playlist rows, and songs every other row, each in result order.
pub proof fn law_search_buckets(items: Seq<BrowseItem>)
    ensures
        in_bucket(items, 1) == items.filter(|i: BrowseItem| i.kind@ == "album"@),
        in_bucket(items, 2) == items.filter(|i: BrowseItem| i.kind@ == "artist"@),
        in_bucket(items, 3) == items.filter(|i: BrowseItem| i.kind@ == "playlist"@),
        in_bucket(items, 0) == items.filter(
            |i: BrowseItem| i.kind@ != "album"@ && i.kind@ != "artist"@ && i.kind@ != "playlist"@,
        ),
{
    reveal_strlit("album");
    reveal_strlit("artist");
    reveal_strlit("playlist");
    assert("album"@.len() == 5 && "artist"@.len() == 6 && "playlist"@.len() == 8);
    assert((|i: BrowseItem| bucket_of(i.kind@) == 1) =~= (|i: BrowseItem| i.kind@ == "album"@));
    assert((|i: BrowseItem| bucket_of(i.kind@) == 2) =~= (|i: BrowseItem| i.kind@ == "artist"@));
    assert((|i: BrowseItem| bucket_of(i.kind@) == 3) =~= (|i: BrowseItem| i.kind@ == "playlist"@));
    assert((|i: BrowseItem| bucket_of(i.kind@) == 0) =~= (
        |i: BrowseItem| i.kind@ != "album"@ && i.kind@ != "artist"@ && i.kind@ != "playlist"@));
}

/// An unfiltered search's results: the top-result cards and their related rows as given, and the
/// flat rows bucketed by the kind their navigation implies, each bucket in result order.
pub fn search_results(top: Vec<BrowseItem>, rows: Vec<BrowseItem>) -> (r: SearchResults)
    ensures
        r.top == top,
        r.songs@ == in_bucket(rows@, 0),
        r.albums@ == in_bucket(rows@, 1),
        r.artists@ == in_bucket(rows@, 2),
        r.playlists@ == in_bucket(rows@, 3),
{
    let n: usize = rows.len();
    let ghost orig = rows@;
    let mut songs: Vec<BrowseItem> = Vec::new();
    let mut albums: Vec<BrowseItem> = Vec::new();
    let mut artists: Vec<BrowseItem> = Vec::new();
    let mut playlists: Vec<BrowseItem> = Vec::new();
    let mut rest = rows;
    let mut i: usize = 0;
    assert(orig.skip(0) =~= orig);
    assert(orig.take(0) =~= Seq::<BrowseItem>::empty());
    while rest.len() > 0
        invariant
            orig.len() == n,
            i + rest@.len() == orig.len(),
            rest@ == orig.skip(i as int),
            songs@ == in_bucket(orig.take(i as int), 0),
            albums@ == in_bucket(orig.take(i as int), 1),
            artists@ == in_bucket(orig.take(i as int), 2),
            playlists@ == in_bucket(orig.take(i as int), 3),
        decreases rest@.len(),
    {
        let item = rest.remove(0);
        assert(item == orig[i as int]);
        assert(rest@ =~= orig.skip(i + 1));
        assert(orig.take(i + 1) =~= orig.take(i as int).push(item));
        proof {
            assert forall|b: int| #[trigger] in_bucket(orig.take(i + 1), b) == if bucket_of(item.kind@) == b {
                in_bucket(orig.take(i as int), b).push(item)
            } else {
                in_bucket(orig.take(i as int), b)
            } by {
                orig.take(i as int).lemma_filter_push(item, |x: BrowseItem| bucket_of(x.kind@) == b);
            }
        }
        if crate::text::str_eq(item.kind, "album") {
            albums.push(item);
        } else if crate::text::str_eq(item.kind, "artist") {
            artists.push(item);
        } else if crate::text::str_eq(item.kind, "playlist") {
            playlists.push(item);
        } else {
            songs.push(item);
        }
        i = i + 1;
    }
    assert(orig.take(n as int) =~= orig);
    SearchResults { top, songs, albums, artists, playlists }
}

// --- the library grid and album video flags ------------------------------------------------------

/// A library response's parts, for the card and row parsers: its two-row cards and its list rows.
pub fn library_parts<'a>(root: &'a Json) -> (r: (Vec<&'a Json>, Vec<&'a Json>))
    ensures
        views(r.0@) == under(root@, "musicTwoRowItemRenderer"@),
        views(r.1@) == under(root@, "musicResponsiveListItemRenderer"@),
{
    (find_all(root, "musicTwoRowItemRenderer"), find_all(root, "musicResponsiveListItemRenderer"))
}

/// The library grid: playlists and albums come back as cards; library artists come back as a
/// shelf of list rows instead, used only when there are no cards.
pub fn library_grid(cards: Vec<BrowseItem>, rows: Vec<BrowseItem>) -> (r: Vec<BrowseItem>)
    ensures
        r == (if cards@.len() > 0 { cards } else { rows }),
{
    if cards.len() > 0 {
        cards
    } else {
        rows
    }
}

/// Whether a track row links the music video rather than the album audio: its watch endpoint's
/// `musicVideoType` is present and is not `MUSIC_VIDEO_TYPE_ATV` (the audio track type). Absent
/// means it cannot be told, and the row counts as audio.
pub open spec fn video_flag_of(row: JsonV) -> bool {
    match find_first_str_spec(row, "musicVideoType"@) {
        Some(t) => t != "MUSIC_VIDEO_TYPE_ATV"@,
        None => false,
    }
}

/// Per-track "this row is the music video" flags for an album's rows, aligned with the rows the
/// row parser kept (hand in exactly those).
pub fn album_video_flags(rows: &Vec<&Json>) -> (r: Vec<bool>)
    ensures
        r@ == views(rows@).map_values(|row: JsonV| video_flag_of(row)),
{
    let mut out: Vec<bool> = Vec::new();
    let mut i: usize = 0;
    while i < rows.len()
        invariant
            0 <= i <= rows@.len(),
            out@ == views(rows@).take(i as int).map_values(|row: JsonV| video_flag_of(row)),
        decreases rows@.len() - i,
    {
        let flag = match find_first_str(rows[i], "musicVideoType") {
            Some(t) => !crate::text::str_eq(t.as_str(), "MUSIC_VIDEO_TYPE_ATV"),
            None => false,
        };
        out.push(flag);
        assert(views(rows@).take(i + 1) =~= views(rows@).take(i as int).push(rows@[i as int]@));
        assert(out@ =~= views(rows@).take(i + 1).map_values(|row: JsonV| video_flag_of(row)));
        i = i + 1;
    }
    assert(views(rows@).take(rows@.len() as int) =~= views(rows@));
    out
}

// --- list rows as cards ---------------------------------------------------------------------------

/// Where a search or library list row leads: its own (item-level) browse endpoint opens an album,
/// artist or playlist page (a subtitle's artist link does not count); otherwise it plays its video.
pub open spec fn list_item_target_of(node: JsonV, video_id: Option<Seq<char>>) -> Option<(Seq<char>, Seq<char>)> {
    match str_value(get_opt(get_opt(get(node, "navigationEndpoint"@), "browseEndpoint"@), "browseId"@)) {
        Some(b) => Some((kind_from_id(target_id(b)), target_id(b))),
        None => match video_id {
            Some(v) => Some(("song"@, v)),
            None => None,
        },
    }
}

/// A search or library list row as a card. Its first two columns' text, its video id, whether it
/// wears the explicit badge, and what its subtitle runs say of a song are read by the row parser
/// and handed in; the image is the row's largest thumbnail.
pub fn list_item_card(
    node: &Json,
    title: Option<String>,
    subtitle: Option<String>,
    video_id: Option<String>,
    explicit: bool,
    song: SongRuns,
) -> (r: Option<BrowseItem>)
    ensures
        card_ok(r, opt_chars(title), opt_chars(subtitle), last_thumbnail_of(node@),
            list_item_target_of(node@, opt_chars(video_id)), explicit, song),
{
    let thumbnail = last_thumbnail(node);
    let bid = get_member_opt(get_member_opt(get_member(node, "navigationEndpoint"), "browseEndpoint"), "browseId");
    let target = match crate::json::as_str(bid) {
        Some(b) => Some(browse_target(b.as_str())),
        None => match video_id {
            Some(v) => Some(("song", v)),
            None => None,
        },
    };
    card(title, subtitle, thumbnail, target, explicit, song)
}

/// A track row in a carousel, as a song card: the row's artists as the subtitle (none when it has
/// none), and its id, title, image, length, links and flags.
pub fn song_card(song: SongItem) -> (r: BrowseItem)
    ensures
        r.kind@ == "song"@,
        r.id == song.video_id,
        r.title == song.title,
        r.subtitle == (if song.artists@.len() > 0 { Some(song.artists) } else { None }),
        r.thumbnail == song.thumbnail,
        r.duration == song.duration,
        r.artist_runs == song.artist_runs,
        r.is_video == song.is_video,
        r.explicit == song.explicit,
{
    let SongItem { video_id, title, artists, thumbnail, duration, artist_runs, is_video, explicit, .. } = song;
    let subtitle = if artists.as_str().is_empty() { None } else { Some(artists) };
    BrowseItem { kind: "song", id: video_id, title, subtitle, thumbnail, duration, artist_runs, is_video, explicit }
}

} // verus!
