use serde_json::Value;
use yapel::browse::{playlist_header, SongItem};
use yapel::header::{
    album_description, artist_subscription, card_shelf_target, carousel_header, continuation_page, home_chips,
    last_thumbnail, playlist_page, runs_text, text_or_runs, top_songs_id, two_row_target,
};
use yapel::json::{get_member, Json};

fn to_json(v: &Value) -> Json {
    match v {
        Value::Null => Json::Null,
        Value::Bool(b) => Json::Bool(*b),
        Value::Number(n) => match n.as_i64() {
            Some(i) => Json::Int(i),
            None => Json::OtherNumber(n.to_string()),
        },
        Value::String(s) => Json::Str(s.clone()),
        Value::Array(a) => Json::Array(a.iter().map(to_json).collect()),
        Value::Object(o) => Json::Object(o.iter().map(|(k, v)| (k.clone(), to_json(v))).collect()),
    }
}

fn parse(text: &str) -> Json {
    to_json(&serde_json::from_str::<Value>(text).unwrap())
}

fn home() -> Json {
    parse(
        r#"{
        "header": { "chipCloudRenderer": { "chips": [
            { "chipCloudChipRenderer": {
                "text": { "runs": [{ "text": "Workout" }] },
                "navigationEndpoint": { "browseEndpoint": { "browseId": "FEmusic_home", "params": "ggNC0" } }
            } },
            { "chipCloudChipRenderer": { "text": { "runs": [{ "text": "Nowhere" }] } } }
        ] } },
        "contents": { "sectionListRenderer": { "contents": [
            { "musicCarouselShelfRenderer": {
                "header": { "musicCarouselShelfBasicHeaderRenderer": {
                    "title": { "runs": [{ "text": "Mixed for you" }] },
                    "moreContentButton": { "buttonRenderer": { "navigationEndpoint": {
                        "browseEndpoint": { "browseId": "FEmusic_moods_and_genres_category", "params": "MOREPARAMS" }
                    } } }
                } },
                "contents": [
                    { "musicTwoRowItemRenderer": {
                        "title": { "runs": [{ "text": "My Mix", "navigationEndpoint": {} }] },
                        "subtitle": { "runs": [{ "text": "Playlist" }] },
                        "navigationEndpoint": { "browseEndpoint": { "browseId": "VLPL123" } },
                        "thumbnailRenderer": { "musicThumbnailRenderer": { "thumbnail": { "thumbnails": [
                            { "url": "a.jpg" }, { "url": "b.jpg" }
                        ] } } }
                    } },
                    { "musicTwoRowItemRenderer": {
                        "title": { "runs": [{ "text": "Some Album" }] },
                        "subtitle": { "runs": [{ "text": "Album • Artist" }] },
                        "navigationEndpoint": { "browseEndpoint": { "browseId": "MPREb_abc" } }
                    } }
                ]
            } },
            { "musicCarouselShelfRenderer": {
                "header": { "musicCarouselShelfBasicHeaderRenderer": {
                    "title": { "runs": [{ "text": "Recommended albums" }] }
                } },
                "contents": []
            } }
        ] } }
    }"#,
    )
}

fn shelves(root: &Json) -> Vec<&Json> {
    yapel::json::find_all(root, "musicCarouselShelfRenderer")
}

fn cards(shelf: &Json) -> Vec<&Json> {
    yapel::json::find_all(shelf, "musicTwoRowItemRenderer")
}

#[test]
fn home_chips_need_a_feed_to_open() {
    let chips = home_chips(&home());
    assert_eq!(chips.len(), 1);
    assert_eq!(chips[0].title, "Workout");
    assert_eq!(chips[0].params, "ggNC0");
}

#[test]
fn carousel_titles_and_more_targets() {
    let root = home();
    let s = shelves(&root);
    assert_eq!(
        carousel_header(s[0]),
        ("Mixed for you".to_string(), Some("FEmusic_moods_and_genres_category".to_string()), Some("MOREPARAMS".to_string()))
    );
    assert_eq!(carousel_header(s[1]), ("Recommended albums".to_string(), None, None));
    // No header at all: an empty title.
    assert_eq!(carousel_header(&parse(r#"{ "contents": [] }"#)), (String::new(), None, None));
}

#[test]
fn the_largest_thumbnail_is_the_last() {
    let root = home();
    let s = shelves(&root);
    let c = cards(s[0]);
    assert_eq!(last_thumbnail(c[0]).as_deref(), Some("b.jpg"));
    assert_eq!(last_thumbnail(c[1]), None);
    assert_eq!(last_thumbnail(&parse(r#"{ "thumbnails": [] }"#)), None);
}

#[test]
fn runs_join_into_one_text() {
    let v = parse(r#"{ "runs": [{ "text": "Album" }, { "text": " • " }, { "text": "Miley Cyrus" }] }"#);
    assert_eq!(runs_text(Some(&v)).as_deref(), Some("Album • Miley Cyrus"));
    assert_eq!(runs_text(Some(&parse(r#"{ "runs": [] }"#))), None);
    assert_eq!(runs_text(Some(&parse(r#"{ "simpleText": "x" }"#))), None);
    assert_eq!(runs_text(None), None);
    assert_eq!(text_or_runs(Some(&parse(r#"{ "simpleText": "32.7M" }"#))).as_deref(), Some("32.7M"));
    assert_eq!(text_or_runs(Some(&v)).as_deref(), Some("Album • Miley Cyrus"));
}

#[test]
fn cards_lead_to_songs_playlists_and_pages() {
    let root = home();
    let s = shelves(&root);
    let c = cards(s[0]);
    assert_eq!(two_row_target(c[0]), Some(("playlist", "VLPL123".to_string())));
    assert_eq!(two_row_target(c[1]), Some(("album", "MPREb_abc".to_string())));
    let song = parse(r#"{ "navigationEndpoint": { "watchEndpoint": { "videoId": "vidbarbie" } } }"#);
    assert_eq!(two_row_target(&song), Some(("song", "vidbarbie".to_string())));
    let raw = parse(r#"{ "navigationEndpoint": { "watchPlaylistEndpoint": { "playlistId": "RDCLAK" } } }"#);
    assert_eq!(two_row_target(&raw), Some(("playlist", "VLRDCLAK".to_string())));
    let artist = parse(r#"{ "navigationEndpoint": { "browseEndpoint": { "browseId": "MPLAUCkajiura" } } }"#);
    assert_eq!(two_row_target(&artist), Some(("artist", "UCkajiura".to_string())));
    assert_eq!(two_row_target(&parse(r#"{ "title": {} }"#)), None);
}

#[test]
fn the_top_result_card_leads_through_its_title() {
    let card = parse(
        r#"{
        "title": { "runs": [{ "text": "The Artist", "navigationEndpoint": { "browseEndpoint": { "browseId": "UCart" } } }] },
        "subtitle": { "runs": [{ "text": "Artist" }] },
        "thumbnail": { "musicThumbnailRenderer": { "thumbnail": { "thumbnails": [{ "url": "top.jpg" }] } } },
        "contents": []
    }"#,
    );
    assert_eq!(card_shelf_target(&card), Some(("artist", "UCart".to_string())));
    assert_eq!(last_thumbnail(get_member(&card, "thumbnail").unwrap()).as_deref(), Some("top.jpg"));
    let tap = parse(r#"{ "title": { "runs": [{ "text": "A" }] }, "onTap": { "watchEndpoint": { "videoId": "v1" } } }"#);
    assert_eq!(card_shelf_target(&tap), Some(("song", "v1".to_string())));
    // A raw playlist endpoint is not one a top-result card follows.
    let raw = parse(r#"{ "navigationEndpoint": { "watchPlaylistEndpoint": { "playlistId": "PL1" } } }"#);
    assert_eq!(card_shelf_target(&raw), None);
}

#[test]
fn album_header_fields() {
    let root = parse(
        r#"{
        "header": { "musicResponsiveHeaderRenderer": {
            "title": { "runs": [{ "text": "ICEMAN" }] },
            "straplineThumbnail": { "musicThumbnailRenderer": { "thumbnail": { "thumbnails": [
                { "url": "artist_avatar.jpg" }
            ] } } },
            "thumbnail": { "musicThumbnailRenderer": { "thumbnail": { "thumbnails": [
                { "url": "cover_small.jpg" }, { "url": "cover_big.jpg" }
            ] } } },
            "description": { "runs": [{ "text": "Iceman is one of three studio albums." }] }
        } }
    }"#,
    );
    let header = playlist_header(&root);
    assert_eq!(
        album_description(&root, header).as_deref(),
        Some("Iceman is one of three studio albums.")
    );
    let h = header.unwrap();
    assert_eq!(last_thumbnail(get_member(h, "thumbnail").unwrap()).as_deref(), Some("cover_big.jpg"));
    assert_eq!(last_thumbnail(get_member(h, "straplineThumbnail").unwrap()).as_deref(), Some("artist_avatar.jpg"));
    // No header description: the description shelf's.
    let shelf = parse(
        r#"{ "contents": [{ "musicDescriptionShelfRenderer": { "description": { "runs": [{ "text": "From the shelf" }] } } }] }"#,
    );
    assert_eq!(album_description(&shelf, None).as_deref(), Some("From the shelf"));
    assert_eq!(album_description(&parse("{}"), None), None);
}

#[test]
fn artist_header_subscription_and_audience() {
    let header = parse(
        r#"{
        "title": { "runs": [{ "text": "Drake" }] },
        "subscriptionButton": { "subscribeButtonRenderer": {
            "channelId": "UCdrake",
            "subscribed": true,
            "subscriberCountText": { "runs": [{ "text": "32.7M" }] },
            "longSubscriberCountText": { "runs": [{ "text": "32.7M subscribers" }] }
        } },
        "monthlyListenerCount": { "runs": [{ "text": "137M monthly audience" }] }
    }"#,
    );
    assert_eq!(
        artist_subscription(Some(&header), "UCx"),
        ("UCdrake".to_string(), true, Some("32.7M subscribers".to_string()), Some("137M monthly audience".to_string()))
    );
    let bare = parse(r#"{ "title": { "runs": [{ "text": "An Artist" }] } }"#);
    assert_eq!(artist_subscription(Some(&bare), "UCx"), ("UCx".to_string(), false, None, None));
    assert_eq!(artist_subscription(None, "UCy"), ("UCy".to_string(), false, None, None));
    let short = parse(r#"{ "subscribeButtonRenderer": { "subscriberCountText": { "simpleText": "2.96M" } } }"#);
    assert_eq!(artist_subscription(Some(&short), "UCz").2.as_deref(), Some("2.96M"));
}

#[test]
fn top_songs_show_all_is_a_vl_playlist() {
    let shelf = parse(
        r#"{ "title": { "runs": [{ "text": "Songs", "navigationEndpoint": { "browseEndpoint": { "browseId": "UCdrake" } } }] },
        "contents": [],
        "bottomEndpoint": { "browseEndpoint": { "browseId": "VLOLAK5uy_drake" } } }"#,
    );
    assert_eq!(top_songs_id(&shelf).as_deref(), Some("VLOLAK5uy_drake"));
    let no_bottom = parse(
        r#"{ "title": { "runs": [{ "navigationEndpoint": { "browseEndpoint": { "browseId": "UCdrake" } } },
        { "navigationEndpoint": { "browseEndpoint": { "browseId": "VLtop" } } }] } }"#,
    );
    assert_eq!(top_songs_id(&no_bottom).as_deref(), Some("VLtop"));
    let channel_only = parse(r#"{ "bottomEndpoint": { "browseEndpoint": { "browseId": "UCdrake" } } }"#);
    assert_eq!(top_songs_id(&channel_only), None);
}

#[test]
fn playlist_page_header_token_and_owner() {
    let root = parse(
        r#"{
        "header": { "musicResponsiveHeaderRenderer": {
            "title": { "runs": [{ "text": "Road Trip" }] },
            "secondSubtitle": { "runs": [{ "text": "2 songs • 7 min" }] },
            "thumbnail": { "musicThumbnailRenderer": { "thumbnail": { "thumbnails": [
                { "url": "cover.jpg" }
            ] } } }
        } },
        "contents": { "singleColumnBrowseResultsRenderer": { "tabs": [{ "tabRenderer": { "content": {
            "sectionListRenderer": { "contents": [{ "musicPlaylistShelfRenderer": { "contents": [],
                "continuations": [{ "nextContinuationData": { "continuation": "MORE_TOKEN" } }] } }] }
        } } }] } }
    }"#,
    );
    let row = SongItem { video_id: "vid1".into(), title: "Track One".into(), ..Default::default() };
    let p = playlist_page(&root, vec![row.clone()]);
    assert_eq!(p.title.as_deref(), Some("Road Trip"));
    assert_eq!(p.subtitle.as_deref(), Some("2 songs • 7 min"));
    assert_eq!(p.thumbnail.as_deref(), Some("cover.jpg"));
    assert_eq!(p.items, vec![row]);
    assert_eq!(p.continuation.as_deref(), Some("MORE_TOKEN"));
    assert!(!p.owned);
    assert!(p.sort_menu.is_none());

    let owned = parse(
        r#"{ "header": { "musicEditablePlaylistDetailHeaderRenderer": {
            "header": { "musicResponsiveHeaderRenderer": {
                "title": { "runs": [{ "text": "My Playlist" }] },
                "subtitle": { "runs": [{ "text": "Playlist" }] }
            } }
        } } }"#,
    );
    let p = playlist_page(&owned, Vec::new());
    assert_eq!(p.title.as_deref(), Some("My Playlist"));
    assert_eq!(p.subtitle.as_deref(), Some("Playlist"));
    assert!(p.owned);
}

#[test]
fn short_playlist_ignores_the_suggestion_shelf_token_in_its_page() {
    let root = parse(
        r#"{ "contents": { "sectionListRenderer": { "contents": [
            { "musicPlaylistShelfRenderer": { "contents": [] } },
            { "musicShelfRenderer": { "contents": [],
                "continuations": [{ "nextContinuationData": { "continuation": "SUGGEST_TOKEN" } }] } }
        ] } } }"#,
    );
    assert_eq!(playlist_page(&root, Vec::new()).continuation, None);
}

#[test]
fn continuation_pages_page_on() {
    let shelf = parse(
        r#"{ "continuationContents": { "sectionListContinuation": { "contents": [{ "musicShelfRenderer": {
            "contents": [], "continuations": [{ "nextContinuationData": { "continuation": "NEXT" } }] } }] } } }"#,
    );
    assert_eq!(continuation_page(&shelf, Vec::new()).continuation.as_deref(), Some("NEXT"));
    let bare = parse(
        r#"{ "onResponseReceivedActions": [{ "continuationItemRenderer": { "continuationEndpoint": {
            "continuationCommand": { "token": "MODERN" } } } }] }"#,
    );
    assert_eq!(continuation_page(&bare, Vec::new()).continuation.as_deref(), Some("MODERN"));
}
