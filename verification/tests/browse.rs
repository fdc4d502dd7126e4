use serde_json::Value;
use yapel::browse::{
    album_in_library, album_playlist_id, browse_kind_from_id, browse_target, continuation_token, is_signed_out,
    library_toggle_playlist_id, playlist_header, radio_playlist_id, shelf_continuation, sort_menu, track_shelf,
    PlaylistSort,
};
use yapel::browse::PlaylistSort::{Album, Artist, Newest, Oldest, Title, Top};
use yapel::json::{as_i64, get_member, Json};

fn to_json(v: &Value) -> Json {
    match v {
        Value::Null => Json::Null,
        Value::Bool(b) => Json::Bool(*b),
        Value::Number(n) => match n.as_i64() {
            Some(i) => Json::Int(i),
            None => Json::OtherNumber(n.to_string()),
        },
        Value::String(s) => Json::Str(s.clone()),
        Value::Array(a) => Json::Array(a.iter().map(to_json).collect()),
        Value::Object(o) => Json::Object(o.iter().map(|(k, v)| (k.clone(), to_json(v))).collect()),
    }
}

fn parse(text: &str) -> Json {
    to_json(&serde_json::from_str::<Value>(text).unwrap())
}

#[test]
fn detects_signed_out_state() {
    let signed_out = parse(
        r#"{
        "contents": { "sectionListRenderer": { "contents": [{ "itemSectionRenderer": { "contents": [
            { "messageRenderer": {
                "text": { "runs": [{ "text": "Looking for what you've liked?" }] },
                "button": { "buttonRenderer": { "navigationEndpoint": { "signInEndpoint": { "hack": true } } } }
            } }
        ] } }] } }
    }"#,
    );
    assert!(is_signed_out(&signed_out));
    // A normal playlist response has no signInEndpoint.
    let ok = parse(r#"{ "contents": { "musicPlaylistShelfRenderer": { "contents": [] } } }"#);
    assert!(!is_signed_out(&ok));
    // Signed-in Songs/Liked still ship a chrome signInEndpoint next to real rows.
    let signed_in_songs = parse(
        r#"{
        "contents": { "singleColumnBrowseResultsRenderer": { "tabs": [{ "tabRenderer": { "content": {
            "sectionListRenderer": { "contents": [
                { "musicPlaylistShelfRenderer": { "contents": [
                    { "musicResponsiveListItemRenderer": { "playlistItemData": { "videoId": "abc" } } }
                ] } }
            ] }
        } } }] } },
        "header": { "chipCloudChipRenderer": {
            "navigationEndpoint": { "signInEndpoint": { "hack": true } }
        } }
    }"#,
    );
    assert!(
        !is_signed_out(&signed_in_songs),
        "chrome signInEndpoint must not expire a page that already has tracks"
    );
}

#[test]
fn continuation_prefers_modern_token() {
    let root = parse(
        r#"{
        "continuationItemRenderer": { "continuationEndpoint": {
            "continuationCommand": { "token": "MODERN" }
        } }
    }"#,
    );
    assert_eq!(continuation_token(&root).as_deref(), Some("MODERN"));
}

#[test]
fn continuation_falls_back_to_the_legacy_token() {
    let root = parse(r#"{ "continuations": [{ "nextContinuationData": { "continuation": "LEGACY" } }] }"#);
    assert_eq!(continuation_token(&root).as_deref(), Some("LEGACY"));
    assert_eq!(continuation_token(&parse(r#"{ "contents": [] }"#)), None);
}

/// The exact params YouTube's own menu hands out, so a typo in the table cannot pass. Only the
/// ascending side of title/artist/album is ever sent by YouTube; the descending ones are the
/// same message with the order byte flipped, which the server accepts (verified live).
#[test]
fn sort_params_match_the_menu_youtube_sends() {
    assert_eq!(PlaylistSort::Default.params(false), "2ggA");
    assert_eq!(PlaylistSort::Default.params(true), "2ggA"); // no reversed manual order exists server-side
    assert_eq!(Newest.params(false), "2ggECAIQAw==");
    assert_eq!(Oldest.params(false), "2ggECAEQAw==");
    assert_eq!(Top.params(false), "2ggECAIQBA==");
    assert_eq!(Title.params(false), "2ggECAEQBQ==");
    assert_eq!(Artist.params(false), "2ggECAEQBg==");
    assert_eq!(Album.params(false), "2ggECAEQBw==");
    // Date is already directional, so reversing one date sort has to land on the other.
    assert_eq!(Newest.params(true), Oldest.params(false));
    assert_eq!(Oldest.params(true), Newest.params(false));
    // Everything else keeps its kind and only flips the order byte.
    for s in [Title, Artist, Album, Top] {
        assert_ne!(s.params(true), s.params(false), "{s:?} must have a reversed form");
        assert_eq!(PlaylistSort::from_params(s.params(true)), Some(s));
    }
}

/// 4/5/6 answer HTTP 500 *and* wedge the playlist into an order its own menu then reports as
/// manual, so `playlistDynamicSortPreference` must never leave 1..3.
#[test]
fn edit_actions_stay_inside_the_enums_youtube_accepts() {
    for s in PlaylistSort::ALL {
        let a = s.edit_action();
        if let Some(n) = as_i64(get_member(&a, "playlistDynamicSortPreference")) {
            assert!((1..=3).contains(&n), "{s:?} would 500 with pref {n}");
        } else {
            let n = as_i64(get_member(&a, "playlistVideoOrder")).unwrap();
            assert!([0, 1, 2, 6].contains(&n), "{s:?} sends an unknown video order {n}");
        }
        assert_eq!(PlaylistSort::from_edit_action(&a), Some(s));
    }
}

#[test]
fn every_sort_reads_back_from_its_params() {
    for s in [PlaylistSort::Default, Newest, Oldest, Title, Artist, Album, Top] {
        assert_eq!(PlaylistSort::from_params(s.params(false)), Some(s));
    }
    // A reversed date order is the other date order: the list comes back in that one.
    assert_eq!(PlaylistSort::from_params(Oldest.params(true)), Some(Newest));
    assert_eq!(PlaylistSort::from_params(Newest.params(true)), Some(Oldest));
    assert_eq!(PlaylistSort::from_params("nonsense"), None);
}

#[test]
fn a_view_only_menu_in_oldest_order_reports_oldest() {
    let root = shelf(
        r#"{ "subMenuItems": [
            { "title": "Oldest", "selected": true, "serviceEndpoint": {
                "browseEndpoint": { "browseId": "VLLM", "params": "2ggECAEQAw%3D%3D" } } }
        ] }"#,
    );
    let m = sort_menu(&root).expect("menu");
    assert_eq!(m.selected, Some(Oldest));
    assert!(!m.editable);
}

fn shelf(menu: &str) -> Json {
    parse(&format!(
        r#"{{ "musicPlaylistShelfRenderer": {{ "contents": [], "header": {{
        "musicSideAlignedItemRenderer": {{ "startItems": [{{ "sortFilterSubMenuRenderer": {menu} }}] }}
    }} }} }}"#
    ))
}

/// A playlist you own: the options are writes, so the choice carries to every other client.
#[test]
fn reads_the_selected_sort_off_an_owned_playlists_menu() {
    let root = shelf(
        r#"{ "subMenuItems": [
        { "title": "Manual ordering", "selected": false, "serviceEndpoint": {
            "playlistEditEndpoint": { "playlistId": "PLx", "actions": [
                { "action": "ACTION_SET_PLAYLIST_VIDEO_ORDER", "playlistVideoOrder": 0 }
            ] } } },
        { "title": "Artist", "selected": true, "serviceEndpoint": {
            "playlistEditEndpoint": { "playlistId": "PLx", "actions": [
                { "action": "ACTION_SET_PLAYLIST_DYNAMIC_SORT_PREFERENCE",
                  "playlistDynamicSortPreference": 2 }
            ] } } }
    ] }"#,
    );
    let m = sort_menu(&root).expect("menu");
    assert_eq!(m.selected, Some(PlaylistSort::Artist));
    assert!(m.editable);
}

/// Liked Music and other people's playlists: view-only endpoints, and the params come back
/// percent-encoded, which the plain table lookup would miss.
#[test]
fn reads_the_selected_sort_off_a_view_only_menu() {
    let root = shelf(
        r#"{ "subMenuItems": [
        { "title": "Default ordering", "selected": false, "serviceEndpoint": {
            "browseEndpoint": { "browseId": "VLLM", "params": "2ggA" } } },
        { "title": "Title", "selected": true, "serviceEndpoint": {
            "browseEndpoint": { "browseId": "VLLM", "params": "2ggECAEQBQ%3D%3D" } } }
    ] }"#,
    );
    let m = sort_menu(&root).expect("menu");
    assert_eq!(m.selected, Some(PlaylistSort::Title));
    assert!(!m.editable, "a browseEndpoint menu cannot be written back");
}

/// Albums and YouTube's radio mixes carry no menu at all — the UI falls back to sorting the
/// rows it has rather than asking for an order the server will not give.
#[test]
fn no_menu_on_a_list_youtube_will_not_reorder() {
    let root = parse(r#"{ "musicPlaylistShelfRenderer": { "contents": [] } }"#);
    assert!(sort_menu(&root).is_none());
    assert!(yapel::header::playlist_page(&root, Vec::new()).sort_menu.is_none());
}

#[test]
fn browse_ids_are_classified_by_prefix() {
    assert_eq!(browse_kind_from_id("MPREb_x"), "album");
    assert_eq!(browse_kind_from_id("UCabc"), "artist");
    assert_eq!(browse_kind_from_id("VLPL1"), "playlist");
    assert_eq!(browse_kind_from_id("PL1"), "playlist");
    let (kind, id) = browse_target("MPREb_x");
    assert_eq!((kind, id.as_str()), ("album", "MPREb_x"));
}

#[test]
fn finds_the_artist_radio_id() {
    let header = parse(
        r#"{ "playButton": { "buttonRenderer": { "navigationEndpoint": { "watchEndpoint": {
            "playlistId": "OLAK5uy_notaradio" } } } },
          "startRadioButton": { "buttonRenderer": { "navigationEndpoint": { "watchEndpoint": {
            "playlistId": "RDEMabc123" } } } } }"#,
    );
    assert_eq!(radio_playlist_id(&header).as_deref(), Some("RDEMabc123"));
    assert_eq!(radio_playlist_id(&parse(r#"{ "title": "x" }"#)), None);
}

#[test]
fn album_audio_playlist_is_the_first_row_that_has_one() {
    let root = parse(
        r#"{ "contents": [
            { "musicResponsiveListItemRenderer": { "playlistItemData": { "videoId": "a" } } },
            { "musicResponsiveListItemRenderer": { "overlay": { "watchEndpoint": { "playlistId": "OLAK5uy_one" } } } },
            { "musicResponsiveListItemRenderer": { "overlay": { "watchEndpoint": { "playlistId": "OLAK5uy_two" } } } }
        ] }"#,
    );
    assert_eq!(album_playlist_id(&root).as_deref(), Some("OLAK5uy_one"));
}

#[test]
fn reads_the_library_toggle_off_an_album_header() {
    let header = |on: bool| {
        parse(&format!(
            r#"{{ "title": {{ "runs": [{{ "text": "Saved" }}] }}, "buttons": [{{ "toggleButtonRenderer": {{
                "isToggled": {on},
                "defaultServiceEndpoint": {{ "likeEndpoint": {{ "status": "LIKE",
                    "target": {{ "playlistId": "OLAK5uy_saved" }} }} }} }} }}] }}"#
        ))
    };
    let saved = header(true);
    assert!(album_in_library(Some(&saved)));
    assert_eq!(library_toggle_playlist_id(Some(&saved)).as_deref(), Some("OLAK5uy_saved"));
    assert!(!album_in_library(Some(&header(false))));
    assert!(!album_in_library(None));
}

#[test]
fn finds_the_track_shelf_and_its_paging_token() {
    let root = parse(
        r#"{ "header": { "musicResponsiveHeaderRenderer": { "title": { "runs": [{ "text": "Road Trip" }] } } },
            "contents": { "sectionListRenderer": { "contents": [
            { "musicPlaylistShelfRenderer": { "contents": [],
                "continuations": [{ "nextContinuationData": { "continuation": "MORE_TOKEN" } }] } },
            { "musicShelfRenderer": { "continuations": [{ "nextContinuationData": { "continuation": "SUGGEST" } }] } }
        ] } } }"#,
    );
    assert!(track_shelf(&root).is_some());
    assert_eq!(shelf_continuation(&root).as_deref(), Some("MORE_TOKEN"));
    assert!(playlist_header(&root).is_some());
}
