use serde_json::Value;
use yapel::browse::{ArtistCarousel, ArtistPage, BrowseItem, HomePage, PlaylistPage, PlaylistSort, SearchResults, Section, SongItem};
use yapel::endpoints::{
    add_video_action, embed_url, playlist_params, prune_home, prune_search, remove_video_action, rename_action,
    session_expired, songs_page, continuation_path, created_playlist_id, drop_video_cards, drop_video_songs, edit_rejection, like_playlist_path,
    playlist_add_outcome, rate_path, search_filter, strip_vl, subscription_path, Error, Rating, FILTER_ALBUM,
    FILTER_ARTIST, FILTER_COMMUNITY_PLAYLIST,
};
use yapel::json::{find_first_str, Json};

fn to_json(v: &Value) -> Json {
    match v {
        Value::Null => Json::Null,
        Value::Bool(b) => Json::Bool(*b),
        Value::Number(n) => match n.as_i64() {
            Some(i) => Json::Int(i),
            None => Json::OtherNumber(n.to_string()),
        },
        Value::String(s) => Json::Str(s.clone()),
        Value::Array(a) => Json::Array(a.iter().map(to_json).collect()),
        Value::Object(o) => Json::Object(o.iter().map(|(k, v)| (k.clone(), to_json(v))).collect()),
    }
}

fn parse(text: &str) -> Json {
    to_json(&serde_json::from_str::<Value>(text).unwrap())
}

#[test]
fn strips_vl_prefix() {
    assert_eq!(strip_vl("VLPL123"), "PL123");
    assert_eq!(strip_vl("PL123"), "PL123");
}

// Both bodies are trimmed captures of the live responses.
#[test]
fn duplicate_add_is_rejected() {
    let ok = parse(
        r#"{ "playlistEditResults": [{ "playlistEditVideoAddedResultData": {
            "setVideoId": "56B44F6D10557CC6", "videoId": "dQw4w9WgXcQ" } }],
            "status": "STATUS_SUCCEEDED" }"#,
    );
    assert!(edit_rejection(&ok).is_none());

    let dup = parse(
        r#"{ "actions": [{ "addToToastAction": { "item": {
            "notificationActionRenderer": { "actionButton": { "buttonRenderer": {
                "command": { "playlistEditEndpoint": { "actions": [{
                    "action": "ACTION_ADD_VIDEO",
                    "addedVideoId": "dQw4w9WgXcQ",
                    "dedupeOption": "DEDUPE_OPTION_SKIP" }] } },
                "text": { "runs": [{ "text": "Add anyway" }] } } },
            "responseText": { "runs": [{ "text": "This track is already in the playlist" }] } } } } }],
            "status": "STATUS_FAILED" }"#,
    );
    assert!(matches!(edit_rejection(&dup), Some(Error::AlreadyInPlaylist)));

    let failed = parse(r#"{ "status": "STATUS_FAILED" }"#);
    assert!(matches!(edit_rejection(&failed), Some(Error::Other(_))));
}

#[test]
fn create_playlist_id_parsed() {
    let resp = parse(r#"{ "playlistId": "PLnew123", "status": "STATUS_SUCCEEDED" }"#);
    assert_eq!(find_first_str(&resp, "playlistId").as_deref(), Some("PLnew123"));
}

#[test]
fn created_playlist_id_or_refusal() {
    let resp = parse(r#"{ "playlistId": "PLnew123", "status": "STATUS_SUCCEEDED" }"#);
    assert_eq!(created_playlist_id(&resp), Ok("PLnew123".to_string()));
    let none = parse(r#"{ "status": "STATUS_SUCCEEDED" }"#);
    assert!(created_playlist_id(&none).is_err());
}

#[test]
fn a_duplicate_add_is_an_answer_not_an_error() {
    assert_eq!(playlist_add_outcome(Ok(())), Ok(true));
    assert_eq!(playlist_add_outcome(Err(Error::AlreadyInPlaylist)), Ok(false));
    assert_eq!(playlist_add_outcome(Err(Error::Other("x".into()))), Err(Error::Other("x".into())));
}

#[test]
fn search_categories_have_filters() {
    assert_eq!(search_filter("albums"), Ok(FILTER_ALBUM));
    assert_eq!(search_filter("artists"), Ok(FILTER_ARTIST));
    assert_eq!(search_filter("playlists"), Ok(FILTER_COMMUNITY_PLAYLIST));
    assert!(search_filter("podcasts").is_err());
}

#[test]
fn write_endpoints_by_state() {
    assert_eq!(rate_path(Rating::Like), "like/like");
    assert_eq!(rate_path(Rating::Dislike), "like/dislike");
    assert_eq!(rate_path(Rating::Indifferent), "like/removelike");
    assert_eq!(like_playlist_path(true), "like/like");
    assert_eq!(like_playlist_path(false), "like/removelike");
    assert_eq!(subscription_path(true), "subscription/subscribe");
    assert_eq!(subscription_path(false), "subscription/unsubscribe");
}

#[test]
fn continuation_path_carries_the_token_both_ways() {
    let p = continuation_path("TOK");
    assert_eq!(p, "browse?ctoken=TOK&continuation=TOK&type=next");
    // The token is percent-encoded: YouTube's tokens carry `=`, `/` and `+`.
    assert_eq!(continuation_path("a/b+c="), "browse?ctoken=a%2Fb%2Bc%3D&continuation=a%2Fb%2Bc%3D&type=next");
}

fn song(id: &str, is_video: bool) -> SongItem {
    SongItem { video_id: id.into(), title: id.into(), is_video, ..Default::default() }
}

#[test]
fn hiding_videos_drops_only_video_rows() {
    let rows = vec![song("a", false), song("b", true), song("c", false)];
    let kept = drop_video_songs(true, rows.clone());
    assert_eq!(kept.iter().map(|s| s.video_id.as_str()).collect::<Vec<_>>(), vec!["a", "c"]);
    assert_eq!(drop_video_songs(false, rows.clone()), rows);
}

fn card(id: &str, is_video: bool) -> BrowseItem {
    BrowseItem {
        kind: "song",
        id: id.into(),
        title: id.into(),
        subtitle: None,
        thumbnail: None,
        duration: None,
        artist_runs: Vec::new(),
        is_video,
        explicit: false,
    }
}

#[test]
fn hiding_videos_drops_only_video_cards() {
    let cards = vec![card("a", true), card("b", false)];
    let kept = drop_video_cards(true, cards.clone());
    assert_eq!(kept.len(), 1);
    assert_eq!(kept[0].id, "b");
    assert_eq!(drop_video_cards(false, cards).len(), 2);
}

#[test]
fn radio_keeps_the_seed_even_when_it_is_a_video() {
    let rows = vec![song("seed", true), song("mv", true), song("audio", false)];
    let kept = yapel::endpoints::radio_rows(true, rows.clone(), Some("seed"));
    assert_eq!(kept.iter().map(|s| s.video_id.as_str()).collect::<Vec<_>>(), vec!["seed", "audio"]);
    assert_eq!(yapel::endpoints::radio_rows(false, rows.clone(), None), rows);
    assert_eq!(yapel::endpoints::radio_rows(true, rows, None).len(), 1);
}

#[test]
fn artist_page_drops_emptied_carousels() {
    let carousel = |title: &str, cards: Vec<BrowseItem>| ArtistCarousel {
        title: title.into(),
        items: cards,
        more_browse_id: None,
        more_params: None,
    };
    let page = ArtistPage {
        name: Some("Aqua".into()),
        thumbnail: None,
        description: None,
        subscribers: None,
        monthly_listeners: None,
        channel_id: "UCaqua".into(),
        subscribed: false,
        radio_playlist_id: None,
        top_songs: vec![song("a", false), song("b", true)],
        top_songs_id: None,
        sections: vec![carousel("Videos", vec![card("v", true)]), carousel("Albums", vec![card("x", false), card("y", true)])],
    };
    let shown = yapel::endpoints::prune_artist_page(true, page.clone());
    assert_eq!(shown.top_songs.len(), 1);
    assert_eq!(shown.sections.len(), 1);
    assert_eq!(shown.sections[0].title, "Albums");
    assert_eq!(shown.sections[0].items.len(), 1);
    let all = yapel::endpoints::prune_artist_page(false, page);
    assert_eq!(all.sections.len(), 2);
    assert_eq!(all.top_songs.len(), 2);
}

#[test]
fn album_audio_replaces_only_the_video_rows() {
    let flags = vec![false, true];
    assert_eq!(yapel::endpoints::album_audio_playlist(&flags, &Some("OLAK5uy_x".into())).as_deref(), Some("VLOLAK5uy_x"));
    assert_eq!(yapel::endpoints::album_audio_playlist(&vec![false, false], &Some("OLAK5uy_x".into())), None);
    assert_eq!(yapel::endpoints::album_audio_playlist(&flags, &None), None);
    let items = vec![song("a1", false), song("mv2", true)];
    let mut audio2 = song("a2", false);
    audio2.duration = Some("3:10".into());
    let audio = vec![song("a1", false), audio2];
    let out = yapel::endpoints::use_album_audio(items.clone(), &flags, &audio);
    assert_eq!(out[0], items[0]);
    assert_eq!(out[1].video_id, "a2");
    assert_eq!(out[1].title, "mv2");
    assert_eq!(out[1].duration.as_deref(), Some("3:10"));
    // Different track counts: no positional match is made.
    assert_eq!(yapel::endpoints::use_album_audio(items.clone(), &flags, &vec![song("z", false)]), items);
}

fn from_json(j: &Json) -> Value {
    match j {
        Json::Null => Value::Null,
        Json::Bool(b) => Value::Bool(*b),
        Json::Int(i) => Value::from(*i),
        Json::OtherNumber(s) => serde_json::from_str(s).unwrap(),
        Json::Str(s) => Value::String(s.clone()),
        Json::Array(a) => Value::Array(a.iter().map(from_json).collect()),
        Json::Object(o) => Value::Object(o.iter().map(|(k, v)| (k.clone(), from_json(v))).collect()),
    }
}

#[test]
fn home_shelves_emptied_by_the_filter_go() {
    let section = |title: &str, cards: Vec<BrowseItem>| Section {
        title: title.into(),
        items: cards,
        more_browse_id: None,
        more_params: None,
    };
    let page = HomePage {
        chips: Vec::new(),
        sections: vec![section("Music videos", vec![card("v1", true)]), section("Mixed for you", vec![card("m", false), card("v2", true)])],
        continuation: Some("HOME_MORE".into()),
    };
    let shown = prune_home(true, page.clone());
    assert_eq!(shown.sections.len(), 1);
    assert_eq!(shown.sections[0].title, "Mixed for you");
    assert_eq!(shown.sections[0].items.len(), 1);
    assert_eq!(shown.continuation.as_deref(), Some("HOME_MORE"));
    assert_eq!(prune_home(false, page).sections.len(), 2);
}

#[test]
fn search_hides_videos_in_top_and_songs_only() {
    let r = SearchResults {
        top: vec![card("t", true)],
        songs: vec![card("s", true), card("s2", false)],
        albums: vec![card("a", true)],
        artists: Vec::new(),
        playlists: Vec::new(),
    };
    let shown = prune_search(true, r.clone());
    assert!(shown.top.is_empty());
    assert_eq!(shown.songs.len(), 1);
    assert_eq!(shown.albums.len(), 1);
    assert_eq!(prune_search(false, r).top.len(), 1);
}

#[test]
fn the_songs_list_is_not_a_playlist() {
    let page = PlaylistPage {
        title: Some("Liked".into()),
        subtitle: None,
        thumbnail: None,
        items: vec![song("", false), song("a", false)],
        continuation: Some("C".into()),
        owned: true,
        sort_menu: None,
    };
    let songs = songs_page(page);
    assert_eq!(songs.title.as_deref(), Some("Songs"));
    assert!(!songs.owned);
    assert_eq!(songs.items.len(), 1);
    assert_eq!(songs.items[0].video_id, "a");
    assert_eq!(songs.continuation.as_deref(), Some("C"));
}

#[test]
fn a_stale_cookie_is_an_error_only_when_logged_in() {
    let shell = parse(
        r#"{ "contents": { "messageRenderer": { "button": { "buttonRenderer": {
            "navigationEndpoint": { "signInEndpoint": {} } } } } } }"#,
    );
    assert!(session_expired(true, &shell));
    assert!(!session_expired(false, &shell));
    assert!(!session_expired(true, &parse(r#"{ "contents": {} }"#)));
}

#[test]
fn request_pieces() {
    assert_eq!(playlist_params(Some((PlaylistSort::Title, false))), Some("2ggECAEQBQ=="));
    assert_eq!(playlist_params(None), None);
    assert_eq!(embed_url("abc"), "https://www.youtube.com/watch?v=abc");
    assert_eq!(
        from_json(&add_video_action("v1")),
        serde_json::from_str::<Value>(r#"{ "action": "ACTION_ADD_VIDEO", "addedVideoId": "v1" }"#).unwrap()
    );
    assert_eq!(
        from_json(&remove_video_action("v1", "S1")),
        serde_json::from_str::<Value>(r#"{ "action": "ACTION_REMOVE_VIDEO", "setVideoId": "S1", "removedVideoId": "v1" }"#).unwrap()
    );
    assert_eq!(
        from_json(&rename_action("New")),
        serde_json::from_str::<Value>(r#"{ "action": "ACTION_SET_PLAYLIST_NAME", "playlistName": "New" }"#).unwrap()
    );
}
