//! The decisions around the InnerTube endpoints: which request to send (paths, filters, ids),
//! what a write's reply means, and the "hide music videos" and album-audio policies applied to
//! what comes back.
use vstd::prelude::*;

use crate::browse::{
    is_signed_out, signed_out_shell, sort_params, ArtistCarousel, ArtistPage, BrowseItem, HomePage, PlaylistPage,
    PlaylistSort, SearchResults, Section, SongItem,
};
use crate::json::{fields_view, lemma_fields_view};
use crate::json::{as_str, find_first_str, find_first_str_spec, get, get_member, str_value, Json, JsonV};
use crate::percent::{percent_encode, percent_encoded};
use crate::text::{is_prefix, owned, push_str, str_eq, strip_prefix};

verus! {

/// Search filter params (opaque base64): songs only.
pub const FILTER_SONG: &'static str = "EgWKAQIIAWoKEAkQBRAKEAMQBA%3D%3D";
/// Search filter params: albums only.
pub const FILTER_ALBUM: &'static str = "EgWKAQIYAWoKEAkQChAFEAMQBA%3D%3D";
/// Search filter params: artists only.
pub const FILTER_ARTIST: &'static str = "EgWKAQIgAWoKEAkQChAFEAMQBA%3D%3D";
/// Search filter params: community playlists only.
pub const FILTER_COMMUNITY_PLAYLIST: &'static str = "EgeKAQQoAEABagoQAxAEEAoQCRAF";

/// An endpoint failure the library itself decides on.
#[derive(Debug, Clone, PartialEq)]
pub enum Error {
    /// `browse/edit_playlist` refused an add because the track is already in the playlist.
    AlreadyInPlaylist,
    Other(String),
}

/// A track rating. The three states are mutually exclusive on YouTube's side.
#[derive(Debug, Clone, Copy, PartialEq, Eq, Structural)]
pub enum Rating {
    Like,
    Dislike,
    Indifferent,
}

/// `id` without its `VL` prefix.
pub open spec fn without_vl(id: Seq<char>) -> Seq<char> {
    if is_prefix("VL"@, id) { id.subrange(2, id.len() as int) } else { id }
}

/// Playlist edit/delete want the raw playlistId; browse gives it `VL`-prefixed.
pub fn strip_vl(id: &str) -> (r: String)
    ensures
        r@ == without_vl(id@),
{
    proof {
        reveal_strlit("VL");
    }
    match strip_prefix(id, "VL") {
        Some(rest) => rest,
        None => owned(id),
    }
}

/// The filter for a "Show more" card search, or the refusal of an unknown category.
pub open spec fn search_filter_of(category: Seq<char>) -> Option<Seq<char>> {
    if category == "albums"@ {
        Some(FILTER_ALBUM@)
    } else if category == "artists"@ {
        Some(FILTER_ARTIST@)
    } else if category == "playlists"@ {
        Some(FILTER_COMMUNITY_PLAYLIST@)
    } else {
        None
    }
}

/// The search filter for a card category (`albums` / `artists` / `playlists`).
pub fn search_filter(category: &str) -> (r: Result<&'static str, Error>)
    ensures
        match r {
            Ok(f) => search_filter_of(category@) == Some(f@),
            Err(e) => search_filter_of(category@) is None
                && (e matches Error::Other(m) && m@ == "unknown search category: "@ + category@),
        },
{
    if str_eq(category, "albums") {
        Ok(FILTER_ALBUM)
    } else if str_eq(category, "artists") {
        Ok(FILTER_ARTIST)
    } else if str_eq(category, "playlists") {
        Ok(FILTER_COMMUNITY_PLAYLIST)
    } else {
        let mut m = owned("unknown search category: ");
        push_str(&mut m, category);
        Err(Error::Other(m))
    }
}

/// The endpoint a rating is sent to.
pub open spec fn rate_path_of(rating: Rating) -> Seq<char> {
    match rating {
        Rating::Like => "like/like"@,
        Rating::Dislike => "like/dislike"@,
        Rating::Indifferent => "like/removelike"@,
    }
}

/// The endpoint a rating is sent to.
pub fn rate_path(rating: Rating) -> (r: &'static str)
    ensures
        r@ == rate_path_of(rating),
{
    match rating {
        Rating::Like => "like/like",
        Rating::Dislike => "like/dislike",
        Rating::Indifferent => "like/removelike",
    }
}

/// Saving to the library is a like on the playlist; removing it removes the like.
pub fn like_playlist_path(liked: bool) -> (r: &'static str)
    ensures
        r@ == (if liked { "like/like"@ } else { "like/removelike"@ }),
{
    if liked { "like/like" } else { "like/removelike" }
}

/// Subscribe or unsubscribe.
pub fn subscription_path(subscribed: bool) -> (r: &'static str)
    ensures
        r@ == (if subscribed { "subscription/subscribe"@ } else { "subscription/unsubscribe"@ }),
{
    if subscribed { "subscription/subscribe" } else { "subscription/unsubscribe" }
}

/// The path of a browse continuation: the token goes in the query, percent-encoded, twice.
pub open spec fn continuation_path_of(token: Seq<char>) -> Seq<char> {
    "browse?ctoken="@ + percent_encoded(token) + "&continuation="@ + percent_encoded(token) + "&type=next"@
}

/// The path of a browse continuation for `token`.
pub fn continuation_path(token: &str) -> (r: String)
    ensures
        r@ == continuation_path_of(token@),
{
    let enc = percent_encode(token);
    let mut p = owned("browse?ctoken=");
    push_str(&mut p, enc.as_str());
    push_str(&mut p, "&continuation=");
    push_str(&mut p, enc.as_str());
    push_str(&mut p, "&type=next");
    p
}

/// What a `browse/edit_playlist` reply means: `None` when the edit landed.
pub open spec fn edit_rejection_of(v: JsonV) -> Option<Option<Seq<char>>> {
    if str_value(get(v, "status"@)) != Some("STATUS_FAILED"@) {
        None
    } else if find_first_str_spec(v, "dedupeOption"@) is Some {
        Some(None)
    } else {
        Some(Some("YouTube refused the playlist edit."@))
    }
}

/// `browse/edit_playlist` answers HTTP 200 even when it applies nothing: the refusal is
/// `"status": "STATUS_FAILED"` in the body. A duplicate add is marked by an "Add anyway" button
/// whose endpoint repeats the action with a `dedupeOption`.
pub fn edit_rejection(v: &Json) -> (r: Option<Error>)
    ensures
        match r {
            None => edit_rejection_of(v@) is None,
            Some(Error::AlreadyInPlaylist) => edit_rejection_of(v@) == Some(None::<Seq<char>>),
            Some(Error::Other(m)) => edit_rejection_of(v@) == Some(Some(m@)),
        },
{
    let failed = match as_str(get_member(v, "status")) {
        Some(s) => str_eq(s.as_str(), "STATUS_FAILED"),
        None => false,
    };
    if !failed {
        return None;
    }
    match find_first_str(v, "dedupeOption") {
        Some(_) => Some(Error::AlreadyInPlaylist),
        None => Some(Error::Other(owned("YouTube refused the playlist edit."))),
    }
}

/// An add's outcome: landed (`true`), already there (`false`), or a real failure.
pub fn playlist_add_outcome(r: Result<(), Error>) -> (out: Result<bool, Error>)
    ensures
        match r {
            Ok(()) => out matches Ok(true),
            Err(Error::AlreadyInPlaylist) => out matches Ok(false),
            Err(Error::Other(m)) => out matches Err(Error::Other(n)) && n@ == m@,
        },
{
    match r {
        Ok(()) => Ok(true),
        Err(Error::AlreadyInPlaylist) => Ok(false),
        Err(e) => Err(e),
    }
}

/// The id of a freshly created playlist: the first `playlistId` string in the reply.
pub fn created_playlist_id(v: &Json) -> (r: Result<String, Error>)
    ensures
        match r {
            Ok(id) => find_first_str_spec(v@, "playlistId"@) == Some(id@),
            Err(e) => find_first_str_spec(v@, "playlistId"@) is None
                && (e matches Error::Other(m) && m@ == "create_playlist: no playlistId in response"@),
        },
{
    match find_first_str(v, "playlistId") {
        Some(id) => Ok(id),
        None => Err(Error::Other(owned("create_playlist: no playlistId in response"))),
    }
}

// --- "hide music videos" -----------------------------------------------------------------------

/// Rows that are not music videos.
pub open spec fn not_video_song(s: SongItem) -> bool {
    !s.is_video
}

/// Cards that are not music videos.
pub open spec fn not_video_card(c: BrowseItem) -> bool {
    !c.is_video
}

/// The rows a fetch keeps: all of them, or, with "hide music videos" on, the non-videos in order.
pub fn drop_video_songs(hide: bool, items: Vec<SongItem>) -> (r: Vec<SongItem>)
    ensures
        r@ == (if hide { items@.filter(|s: SongItem| not_video_song(s)) } else { items@ }),
{
    if !hide {
        return items;
    }
    let ghost pred = |s: SongItem| not_video_song(s);
    let ghost orig = items@;
    let mut rest = items;
    let mut kept: Vec<SongItem> = Vec::new();
    while rest.len() > 0
        invariant
            kept@ + rest@.filter(pred) == orig.filter(pred),
            pred == (|s: SongItem| not_video_song(s)),
        decreases rest@.len(),
    {
        let ghost before = rest@;
        let ghost kept_before = kept@;
        let x = rest.remove(0);
        proof {
            assert(before =~= seq![x] + rest@);
            rest@.lemma_filter_prepend(x, pred);
        }
        if !x.is_video {
            kept.push(x);
            assert(kept@ =~= kept_before + seq![x]);
        }
        assert(kept@ + rest@.filter(pred) =~= orig.filter(pred));
    }
    proof {
        reveal(Seq::filter);
        assert(rest@.filter(pred) =~= Seq::<SongItem>::empty());
        assert(kept@ =~= orig.filter(pred));
    }
    kept
}

/// The cards a fetch keeps: all of them, or, with "hide music videos" on, the non-videos in order.
pub fn drop_video_cards(hide: bool, items: Vec<BrowseItem>) -> (r: Vec<BrowseItem>)
    ensures
        r@ == (if hide { items@.filter(|c: BrowseItem| not_video_card(c)) } else { items@ }),
{
    if !hide {
        return items;
    }
    let ghost pred = |c: BrowseItem| not_video_card(c);
    let ghost orig = items@;
    let mut rest = items;
    let mut kept: Vec<BrowseItem> = Vec::new();
    while rest.len() > 0
        invariant
            kept@ + rest@.filter(pred) == orig.filter(pred),
            pred == (|c: BrowseItem| not_video_card(c)),
        decreases rest@.len(),
    {
        let ghost before = rest@;
        let ghost kept_before = kept@;
        let x = rest.remove(0);
        proof {
            assert(before =~= seq![x] + rest@);
            rest@.lemma_filter_prepend(x, pred);
        }
        if !x.is_video {
            kept.push(x);
            assert(kept@ =~= kept_before + seq![x]);
        }
        assert(kept@ + rest@.filter(pred) =~= orig.filter(pred));
    }
    proof {
        reveal(Seq::filter);
        assert(rest@.filter(pred) =~= Seq::<BrowseItem>::empty());
        assert(kept@ =~= orig.filter(pred));
    }
    kept
}

/// The seed's videoId, as a value.
pub open spec fn seed_view(seed: Option<&str>) -> Option<Seq<char>> {
    match seed {
        Some(v) => Some(v@),
        None => None,
    }
}

/// Whether a radio row survives "hide music videos": a non-video, or the seed itself.
pub open spec fn radio_row_kept(s: SongItem, seed: Option<Seq<char>>) -> bool {
    !s.is_video || seed == Some(s.video_id@)
}

/// The up-next rows a radio keeps. The seed survives even when it is a video: "start radio from
/// this video" must still open on that video, and the playing track is never yanked away.
pub fn radio_rows(hide: bool, items: Vec<SongItem>, seed: Option<&str>) -> (r: Vec<SongItem>)
    ensures
        r@ == (if hide {
            items@.filter(|s: SongItem| radio_row_kept(s, seed_view(seed)))
        } else {
            items@
        }),
{
    if !hide {
        return items;
    }
    let ghost pred = |s: SongItem| radio_row_kept(s, seed_view(seed));
    let ghost orig = items@;
    let mut rest = items;
    let mut kept: Vec<SongItem> = Vec::new();
    while rest.len() > 0
        invariant
            kept@ + rest@.filter(pred) == orig.filter(pred),
            pred == (|s: SongItem| radio_row_kept(s, seed_view(seed))),
        decreases rest@.len(),
    {
        let ghost before = rest@;
        let ghost kept_before = kept@;
        let x = rest.remove(0);
        proof {
            assert(before =~= seq![x] + rest@);
            rest@.lemma_filter_prepend(x, pred);
        }
        let is_seed = match seed {
            Some(v) => str_eq(x.video_id.as_str(), v),
            None => false,
        };
        if !x.is_video || is_seed {
            kept.push(x);
            assert(kept@ =~= kept_before + seq![x]);
        }
        assert(kept@ + rest@.filter(pred) =~= orig.filter(pred));
    }
    proof {
        reveal(Seq::filter);
        assert(rest@.filter(pred) =~= Seq::<SongItem>::empty());
        assert(kept@ =~= orig.filter(pred));
    }
    kept
}

/// A carousel as values: title, cards, and where its "More" button goes.
pub open spec fn carousel_view(c: ArtistCarousel) -> (Seq<char>, Seq<BrowseItem>, Option<String>, Option<String>) {
    (c.title@, c.items@, c.more_browse_id, c.more_params)
}

/// A carousel as shown: its cards past "hide music videos".
pub open spec fn shown_carousel(c: ArtistCarousel, hide: bool) -> (Seq<char>, Seq<BrowseItem>, Option<String>, Option<String>) {
    (c.title@, if hide { c.items@.filter(|i: BrowseItem| not_video_card(i)) } else { c.items@ }, c.more_browse_id, c.more_params)
}

/// The carousels shown, in order: each past "hide music videos", the ones left empty dropped.
pub open spec fn shown_carousels(sections: Seq<ArtistCarousel>, hide: bool)
    -> Seq<(Seq<char>, Seq<BrowseItem>, Option<String>, Option<String>)>
{
    sections.map_values(|c: ArtistCarousel| shown_carousel(c, hide))
        .filter(|v: (Seq<char>, Seq<BrowseItem>, Option<String>, Option<String>)| v.1.len() > 0)
}

/// An artist page as shown: top songs and cards past "hide music videos", and no empty carousels
/// left behind (e.g. the artist's "Videos" row).
pub fn prune_artist_page(hide: bool, page: ArtistPage) -> (r: ArtistPage)
    ensures
        r.name == page.name,
        r.thumbnail == page.thumbnail,
        r.description == page.description,
        r.subscribers == page.subscribers,
        r.monthly_listeners == page.monthly_listeners,
        r.channel_id == page.channel_id,
        r.subscribed == page.subscribed,
        r.radio_playlist_id == page.radio_playlist_id,
        r.top_songs_id == page.top_songs_id,
        r.top_songs@ == (if hide { page.top_songs@.filter(|s: SongItem| not_video_song(s)) } else { page.top_songs@ }),
        r.sections@.map_values(|c: ArtistCarousel| carousel_view(c)) == shown_carousels(page.sections@, hide),
{
    let ArtistPage {
        name, thumbnail, description, subscribers, monthly_listeners, channel_id, subscribed,
        radio_playlist_id, top_songs, top_songs_id, sections,
    } = page;
    let top_songs = drop_video_songs(hide, top_songs);
    let ghost pred = |v: (Seq<char>, Seq<BrowseItem>, Option<String>, Option<String>)| v.1.len() > 0;
    let ghost shown = |c: ArtistCarousel| shown_carousel(c, hide);
    let ghost view = |c: ArtistCarousel| carousel_view(c);
    let ghost orig = sections@;
    let mut rest = sections;
    let mut kept: Vec<ArtistCarousel> = Vec::new();
    while rest.len() > 0
        invariant
            kept@.map_values(view) + rest@.map_values(shown).filter(pred) == orig.map_values(shown).filter(pred),
            pred == (|v: (Seq<char>, Seq<BrowseItem>, Option<String>, Option<String>)| v.1.len() > 0),
            shown == (|c: ArtistCarousel| shown_carousel(c, hide)),
            view == (|c: ArtistCarousel| carousel_view(c)),
        decreases rest@.len(),
    {
        let ghost before = rest@;
        let ghost kept_before = kept@;
        let c = rest.remove(0);
        proof {
            assert(before =~= seq![c] + rest@);
            assert(before.map_values(shown) =~= seq![shown(c)] + rest@.map_values(shown));
            rest@.map_values(shown).lemma_filter_prepend(shown(c), pred);
        }
        let ghost sc = shown(c);
        let ArtistCarousel { title, items, more_browse_id, more_params } = c;
        let items = if hide { drop_video_cards(true, items) } else { items };
        if items.len() > 0 {
            let c2 = ArtistCarousel { title, items, more_browse_id, more_params };
            assert(view(c2) == sc);
            kept.push(c2);
            assert(kept@.map_values(view) =~= kept_before.map_values(view) + seq![sc]);
        } else {
            assert(!pred(sc));
        }
        assert(kept@.map_values(view) + rest@.map_values(shown).filter(pred) =~= orig.map_values(shown).filter(pred));
    }
    proof {
        reveal(Seq::filter);
        assert(rest@.map_values(shown).filter(pred) =~= Seq::<(Seq<char>, Seq<BrowseItem>, Option<String>, Option<String>)>::empty());
        assert(kept@.map_values(view) =~= orig.map_values(shown).filter(pred));
    }
    ArtistPage {
        name, thumbnail, description, subscribers, monthly_listeners, channel_id, subscribed,
        radio_playlist_id, top_songs, top_songs_id, sections: kept,
    }
}

// --- album audio ---------------------------------------------------------------------------------

/// Whether any album row links a music video rather than the album audio.
pub open spec fn any_video(flags: Seq<bool>) -> bool {
    exists|i: int| 0 <= i < flags.len() && flags[i]
}

/// The audio playlist to fetch for an album, if it needs one: only when some row links a music
/// video, and only when the album has an audio playlist (`VL` + its `OLAK5uy_` id).
pub fn album_audio_playlist(flags: &Vec<bool>, playlist_id: &Option<String>) -> (r: Option<String>)
    ensures
        match r {
            Some(id) => any_video(flags@) && (playlist_id matches Some(p) && id@ == "VL"@ + p@),
            None => !any_video(flags@) || playlist_id is None,
        },
{
    let mut i: usize = 0;
    let mut found = false;
    while i < flags.len()
        invariant
            0 <= i <= flags@.len(),
            found == (exists|k: int| 0 <= k < i && flags@[k]),
        decreases flags@.len() - i,
    {
        if flags[i] {
            found = true;
        }
        i = i + 1;
    }
    if !found {
        return None;
    }
    match playlist_id {
        Some(p) => {
            let mut id = owned("VL");
            push_str(&mut id, p.as_str());
            Some(id)
        },
        None => None,
    }
}

fn clone_opt(o: &Option<String>) -> (r: Option<String>)
    ensures
        r == *o,
{
    match o {
        Some(s) => Some(s.clone()),
        None => None,
    }
}

/// An album's rows with the music-video ones switched to the album audio: the audio playlist
/// holds the same album in the same order, so the match is positional, and only made when both
/// lists have the same number of tracks. A switched row takes the audio upload's id, and its
/// length when it has one.
pub fn use_album_audio(items: Vec<SongItem>, flags: &Vec<bool>, audio: &Vec<SongItem>) -> (r: Vec<SongItem>)
    ensures
        r@.len() == items@.len(),
        audio@.len() != items@.len() ==> r@ == items@,
        forall|i: int| 0 <= i < items@.len() ==> {
            let switched = audio@.len() == items@.len() && i < flags@.len() && flags@[i];
            if switched {
                #[trigger] r@[i] == SongItem {
                    video_id: audio@[i].video_id,
                    duration: if audio@[i].duration is Some { audio@[i].duration } else { items@[i].duration },
                    ..items@[i]
                }
            } else {
                r@[i] == items@[i]
            }
        },
{
    if audio.len() != items.len() {
        return items;
    }
    let ghost orig = items@;
    assert(orig.len() <= usize::MAX);
    let mut out: Vec<SongItem> = Vec::new();
    let mut rest = items;
    let mut i: usize = 0;
    assert(orig.skip(0) =~= orig);
    while rest.len() > 0
        invariant
            audio@.len() == orig.len(),
            orig.len() <= usize::MAX,
            i + rest@.len() == orig.len(),
            out@.len() == i,
            rest@ == orig.skip(i as int),
            forall|k: int| 0 <= k < i ==> {
                let switched = k < flags@.len() && flags@[k];
                if switched {
                    #[trigger] out@[k] == SongItem {
                        video_id: audio@[k].video_id,
                        duration: if audio@[k].duration is Some { audio@[k].duration } else { orig[k].duration },
                        ..orig[k]
                    }
                } else {
                    out@[k] == orig[k]
                }
            },
        decreases rest@.len(),
    {
        let ghost before = rest@;
        let item = rest.remove(0);
        assert(item == orig[i as int]);
        assert(rest@ =~= orig.skip(i + 1));
        if i < flags.len() && flags[i] {
            let a = &audio[i];
            let duration = match &a.duration {
                Some(d) => Some(d.clone()),
                None => item.duration,
            };
            let SongItem {
                video_id: _, title, artists, artist_id, artist_runs, album, thumbnail, duration: _,
                is_video, explicit, queued, queued_end, queued_from, queued_by, autoplay, set_video_id,
            } = item;
            out.push(SongItem {
                video_id: a.video_id.clone(), title, artists, artist_id, artist_runs, album, thumbnail,
                duration, is_video, explicit, queued, queued_end, queued_from, queued_by, autoplay,
                set_video_id,
            });
        } else {
            out.push(item);
        }
        i = i + 1;
    }
    out
}

// --- the home feed, search and the Songs page --------------------------------------------------------

/// A home section as values: title, cards, and where its "More" button goes.
pub open spec fn section_view(c: Section) -> (Seq<char>, Seq<BrowseItem>, Option<String>, Option<String>) {
    (c.title@, c.items@, c.more_browse_id, c.more_params)
}

/// A home section as shown: its cards past "hide music videos".
pub open spec fn shown_section(c: Section, hide: bool) -> (Seq<char>, Seq<BrowseItem>, Option<String>, Option<String>) {
    (c.title@, if hide { c.items@.filter(|i: BrowseItem| not_video_card(i)) } else { c.items@ }, c.more_browse_id, c.more_params)
}

/// The home sections shown, in order: each past "hide music videos", the ones left empty dropped
/// (an all-videos shelf would render as a bare heading).
pub open spec fn shown_sections(sections: Seq<Section>, hide: bool)
    -> Seq<(Seq<char>, Seq<BrowseItem>, Option<String>, Option<String>)>
{
    sections.map_values(|c: Section| shown_section(c, hide))
        .filter(|v: (Seq<char>, Seq<BrowseItem>, Option<String>, Option<String>)| v.1.len() > 0)
}

/// A home feed page as shown.
pub fn prune_home(hide: bool, page: HomePage) -> (r: HomePage)
    ensures
        r.chips@ == page.chips@,
        r.continuation == page.continuation,
        r.sections@.map_values(|c: Section| section_view(c)) == shown_sections(page.sections@, hide),
{
    let HomePage { chips, sections, continuation } = page;
    let ghost pred = |v: (Seq<char>, Seq<BrowseItem>, Option<String>, Option<String>)| v.1.len() > 0;
    let ghost shown = |c: Section| shown_section(c, hide);
    let ghost view = |c: Section| section_view(c);
    let ghost orig = sections@;
    let mut rest = sections;
    let mut kept: Vec<Section> = Vec::new();
    while rest.len() > 0
        invariant
            kept@.map_values(view) + rest@.map_values(shown).filter(pred) == orig.map_values(shown).filter(pred),
            pred == (|v: (Seq<char>, Seq<BrowseItem>, Option<String>, Option<String>)| v.1.len() > 0),
            shown == (|c: Section| shown_section(c, hide)),
            view == (|c: Section| section_view(c)),
        decreases rest@.len(),
    {
        let ghost before = rest@;
        let ghost kept_before = kept@;
        let c = rest.remove(0);
        proof {
            assert(before =~= seq![c] + rest@);
            assert(before.map_values(shown) =~= seq![shown(c)] + rest@.map_values(shown));
            rest@.map_values(shown).lemma_filter_prepend(shown(c), pred);
        }
        let ghost sc = shown(c);
        let Section { title, items, more_browse_id, more_params } = c;
        let items = if hide { drop_video_cards(true, items) } else { items };
        if items.len() > 0 {
            let c2 = Section { title, items, more_browse_id, more_params };
            assert(view(c2) == sc);
            kept.push(c2);
            assert(kept@.map_values(view) =~= kept_before.map_values(view) + seq![sc]);
        } else {
            assert(!pred(sc));
        }
        assert(kept@.map_values(view) + rest@.map_values(shown).filter(pred) =~= orig.map_values(shown).filter(pred));
    }
    proof {
        reveal(Seq::filter);
        assert(rest@.map_values(shown).filter(pred) =~= Seq::<(Seq<char>, Seq<BrowseItem>, Option<String>, Option<String>)>::empty());
        assert(kept@.map_values(view) =~= orig.map_values(shown).filter(pred));
    }
    HomePage { chips, sections: kept, continuation }
}

/// Unfiltered search results as shown: "hide music videos" applies to the top results and the
/// song cards.
pub fn prune_search(hide: bool, r: SearchResults) -> (out: SearchResults)
    ensures
        out.top@ == (if hide { r.top@.filter(|c: BrowseItem| not_video_card(c)) } else { r.top@ }),
        out.songs@ == (if hide { r.songs@.filter(|c: BrowseItem| not_video_card(c)) } else { r.songs@ }),
        out.albums@ == r.albums@,
        out.artists@ == r.artists@,
        out.playlists@ == r.playlists@,
{
    let SearchResults { top, songs, albums, artists, playlists } = r;
    SearchResults { top: drop_video_cards(hide, top), songs: drop_video_cards(hide, songs), albums, artists, playlists }
}

/// The library's Songs list: not a playlist (no order to ask for, not owned, titled "Songs"),
/// and without the mix row YouTube puts first (a row with no video id).
pub fn songs_page(page: PlaylistPage) -> (r: PlaylistPage)
    ensures
        r.title matches Some(t) && t@ == "Songs"@,
        !r.owned,
        r.sort_menu is None,
        r.subtitle == page.subtitle,
        r.thumbnail == page.thumbnail,
        r.continuation == page.continuation,
        r.items@ == (if page.items@.len() > 0 && page.items@[0].video_id@.len() == 0 {
            page.items@.drop_first()
        } else {
            page.items@
        }),
{
    let PlaylistPage { title: _, subtitle, thumbnail, items, continuation, owned: _, sort_menu: _ } = page;
    let mut items = items;
    if items.len() > 0 && items[0].video_id.as_str().is_empty() {
        let ghost before = items@;
        items.remove(0);
        assert(items@ =~= before.drop_first());
    }
    PlaylistPage { title: Some(owned("Songs")), subtitle, thumbnail, items, continuation, owned: false, sort_menu: None }
}

/// A browse answer that is the signed-out shell while the app holds a login means the cookie
/// went stale: shown as an error, not as a blank page.
pub fn session_expired(logged_in: bool, response: &Json) -> (r: bool)
    ensures
        r == (logged_in && signed_out_shell(response@)),
{
    logged_in && is_signed_out(response)
}

/// The `params` a playlist browse sends for an order, if one was asked for.
pub fn playlist_params(sort: Option<(PlaylistSort, bool)>) -> (r: Option<&'static str>)
    ensures
        match sort {
            Some((s, desc)) => r matches Some(p) && p@ == sort_params(s, desc),
            None => r is None,
        },
{
    match sort {
        Some((s, desc)) => Some(s.params(desc)),
        None => None,
    }
}

/// The watch page `/player` names as the embedding page for a video.
pub fn embed_url(video_id: &str) -> (r: String)
    ensures
        r@ == "https://www.youtube.com/watch?v="@ + video_id@,
{
    let mut u = owned("https://www.youtube.com/watch?v=");
    push_str(&mut u, video_id);
    u
}

/// A JSON object of string members, in order.
fn string_object(fields: Vec<(&str, &str)>) -> (r: Json)
    ensures
        r@ == JsonV::Object(fields@.map_values(|f: (&str, &str)| (f.0@, JsonV::Str(f.1@)))),
{
    let mut out: Vec<(String, Json)> = Vec::new();
    let mut i: usize = 0;
    while i < fields.len()
        invariant
            0 <= i <= fields@.len(),
            fields_view(out@) == fields@.take(i as int).map_values(|f: (&str, &str)| (f.0@, JsonV::Str(f.1@))),
        decreases fields@.len() - i,
    {
        let ghost before = out@;
        out.push((owned(fields[i].0), Json::Str(owned(fields[i].1))));
        proof {
            lemma_fields_view(before);
            lemma_fields_view(out@);
            assert(fields_view(out@) =~= fields_view(before).push((fields@[i as int].0@, JsonV::Str(fields@[i as int].1@))));
            assert(fields@.take(i + 1).map_values(|f: (&str, &str)| (f.0@, JsonV::Str(f.1@)))
                =~= fields@.take(i as int).map_values(|f: (&str, &str)| (f.0@, JsonV::Str(f.1@)))
                    .push((fields@[i as int].0@, JsonV::Str(fields@[i as int].1@))));
        }
        i = i + 1;
    }
    assert(fields@.take(fields@.len() as int) =~= fields@);
    let r = Json::Object(out);
    assert(r@->Object_0 =~= fields@.map_values(|f: (&str, &str)| (f.0@, JsonV::Str(f.1@))));
    r
}

/// The edit that adds a video to a playlist.
pub fn add_video_action(video_id: &str) -> (r: Json)
    ensures
        r@ == JsonV::Object(seq![("action"@, JsonV::Str("ACTION_ADD_VIDEO"@)), ("addedVideoId"@, JsonV::Str(video_id@))]),
{
    let r = string_object(vec![("action", "ACTION_ADD_VIDEO"), ("addedVideoId", video_id)]);
    assert(r@->Object_0 =~= seq![("action"@, JsonV::Str("ACTION_ADD_VIDEO"@)), ("addedVideoId"@, JsonV::Str(video_id@))]);
    r
}

/// The edit that removes one playlist entry (by its `setVideoId`).
pub fn remove_video_action(video_id: &str, set_video_id: &str) -> (r: Json)
    ensures
        r@ == JsonV::Object(seq![
            ("action"@, JsonV::Str("ACTION_REMOVE_VIDEO"@)),
            ("setVideoId"@, JsonV::Str(set_video_id@)),
            ("removedVideoId"@, JsonV::Str(video_id@)),
        ]),
{
    let r = string_object(vec![("action", "ACTION_REMOVE_VIDEO"), ("setVideoId", set_video_id), ("removedVideoId", video_id)]);
    assert(r@->Object_0 =~= seq![
        ("action"@, JsonV::Str("ACTION_REMOVE_VIDEO"@)),
        ("setVideoId"@, JsonV::Str(set_video_id@)),
        ("removedVideoId"@, JsonV::Str(video_id@)),
    ]);
    r
}

/// The edit that renames a playlist.
pub fn rename_action(name: &str) -> (r: Json)
    ensures
        r@ == JsonV::Object(seq![("action"@, JsonV::Str("ACTION_SET_PLAYLIST_NAME"@)), ("playlistName"@, JsonV::Str(name@))]),
{
    let r = string_object(vec![("action", "ACTION_SET_PLAYLIST_NAME"), ("playlistName", name)]);
    assert(r@->Object_0 =~= seq![("action"@, JsonV::Str("ACTION_SET_PLAYLIST_NAME"@)), ("playlistName"@, JsonV::Str(name@))]);
    r
}

} // verus!
