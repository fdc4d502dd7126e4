use serde_json::Value;
use yapel::browse::{ArtistRun, BrowseItem, SongItem};
use yapel::json::{find_all, Json};
use yapel::pages::{
    album_page, album_video_flags, artist_carousel, artist_carousels, artist_list_shelf, artist_page,
    card_related_rows, card_shelf_main, home_page, home_section, home_shelves, library_grid, library_parts,
    list_item_card, search_parts, search_results, song_card, two_row_item, SongRuns,
};

fn to_json(v: &Value) -> Json {
    match v {
        Value::Null => Json::Null,
        Value::Bool(b) => Json::Bool(*b),
        Value::Number(n) => match n.as_i64() {
            Some(i) => Json::Int(i),
            None => Json::OtherNumber(n.to_string()),
        },
        Value::String(s) => Json::Str(s.clone()),
        Value::Array(a) => Json::Array(a.iter().map(to_json).collect()),
        Value::Object(o) => Json::Object(o.iter().map(|(k, v)| (k.clone(), to_json(v))).collect()),
    }
}

fn parse(text: &str) -> Json {
    to_json(&serde_json::from_str::<Value>(text).unwrap())
}

fn no_song() -> SongRuns {
    SongRuns { artists: None, duration: None, artist_runs: Vec::new(), is_video: false }
}

fn song(id: &str) -> SongItem {
    SongItem { video_id: id.into(), title: id.into(), ..Default::default() }
}

fn run(text: &str, id: Option<&str>) -> ArtistRun {
    ArtistRun { text: text.into(), id: id.map(str::to_string) }
}

fn card(kind: &'static str, id: &str) -> BrowseItem {
    BrowseItem {
        kind,
        id: id.into(),
        title: id.into(),
        subtitle: None,
        thumbnail: None,
        duration: None,
        artist_runs: Vec::new(),
        is_video: false,
        explicit: false,
    }
}

fn artist_root() -> Json {
    parse(
        r#"{
        "header": { "musicImmersiveHeaderRenderer": {
            "title": { "runs": [{ "text": "Drake" }] },
            "description": { "runs": [{ "text": "Aubrey Drake Graham is a Canadian rapper." }] },
            "thumbnail": { "musicThumbnailRenderer": { "thumbnail": { "thumbnails": [
                { "url": "small.jpg" }, { "url": "hero.jpg" }
            ] } } },
            "subscriptionButton": { "subscribeButtonRenderer": {
                "channelId": "UCdrake",
                "subscribed": true,
                "subscriberCountText": { "runs": [{ "text": "32.7M" }] },
                "longSubscriberCountText": { "runs": [{ "text": "32.7M subscribers" }] }
            } },
            "monthlyListenerCount": { "runs": [{ "text": "137M monthly audience" }] }
        } },
        "contents": { "singleColumnBrowseResultsRenderer": { "tabs": [{ "tabRenderer": { "content": {
            "sectionListRenderer": { "contents": [
                { "musicShelfRenderer": { "title": { "runs": [{ "text": "Songs" }] }, "contents": [
                    { "musicResponsiveListItemRenderer": {
                        "playlistItemData": { "videoId": "song1" },
                        "flexColumns": [
                            { "musicResponsiveListItemFlexColumnRenderer": { "text": { "runs": [{ "text": "God's Plan" }] } } },
                            { "musicResponsiveListItemFlexColumnRenderer": { "text": { "runs": [{ "text": "Drake" }] } } }
                        ]
                    } }
                ],
                "bottomEndpoint": { "browseEndpoint": { "browseId": "VLOLAK5uy_drake" } } } },
                { "musicCarouselShelfRenderer": {
                    "header": { "musicCarouselShelfBasicHeaderRenderer": {
                        "title": { "runs": [{ "text": "Albums" }] },
                        "moreContentButton": { "buttonRenderer": { "navigationEndpoint": {
                            "browseEndpoint": { "browseId": "UCdrake", "params": "ALBUMS_PARAMS" }
                        } } }
                    } },
                    "contents": [
                        { "musicTwoRowItemRenderer": {
                            "title": { "runs": [{ "text": "ICEMAN" }] },
                            "subtitle": { "runs": [{ "text": "Album • 2026" }] },
                            "navigationEndpoint": { "browseEndpoint": { "browseId": "MPREiceman" } }
                        } }
                    ]
                } }
            ] }
        } } }] } }
    }"#,
    )
}

#[test]
fn parses_artist_page() {
    let root = artist_root();
    let shelf = artist_list_shelf(&root).expect("top songs shelf");
    assert_eq!(find_all(shelf, "musicResponsiveListItemRenderer").len(), 1);
    let carousels = artist_carousels(&root);
    assert_eq!(carousels.len(), 1);
    let cards: Vec<BrowseItem> = find_all(carousels[0], "musicTwoRowItemRenderer")
        .into_iter()
        .filter_map(|n| two_row_item(n, false, no_song()))
        .collect();
    let section = artist_carousel(carousels[0], cards).expect("a row with cards");
    let a = artist_page(&root, "UCdrake", vec![song("song1")], vec![section]);
    assert_eq!(a.name.as_deref(), Some("Drake"));
    assert_eq!(a.description.as_deref(), Some("Aubrey Drake Graham is a Canadian rapper."));
    assert_eq!(a.thumbnail.as_deref(), Some("hero.jpg"));
    assert_eq!(a.channel_id, "UCdrake");
    assert!(a.subscribed);
    assert_eq!(a.subscribers.as_deref(), Some("32.7M subscribers"));
    assert_eq!(a.monthly_listeners.as_deref(), Some("137M monthly audience"));
    assert_eq!(a.top_songs.len(), 1);
    assert_eq!(a.top_songs[0].video_id, "song1");
    assert_eq!(a.top_songs_id.as_deref(), Some("VLOLAK5uy_drake"));
    assert_eq!(a.sections.len(), 1);
    assert_eq!(a.sections[0].title, "Albums");
    assert_eq!(a.sections[0].items[0].kind, "album");
    assert_eq!(a.sections[0].more_browse_id.as_deref(), Some("UCdrake"));
    assert_eq!(a.sections[0].more_params.as_deref(), Some("ALBUMS_PARAMS"));
    // A carousel whose cards all failed to parse is no row.
    assert!(artist_carousel(carousels[0], Vec::new()).is_none());
}

#[test]
fn parses_the_artist_radio_off_the_header() {
    let root = parse(
        r#"{ "header": { "musicImmersiveHeaderRenderer": {
            "title": { "runs": [{ "text": "An Artist" }] },
            "playButton": { "buttonRenderer": {
                "navigationEndpoint": { "watchEndpoint": { "playlistId": "OLAK5uy_notaradio" } }
            } },
            "startRadioButton": { "buttonRenderer": {
                "navigationEndpoint": { "watchEndpoint": { "playlistId": "RDEMabc123" } }
            } }
        } } }"#,
    );
    assert_eq!(artist_page(&root, "UCx", Vec::new(), Vec::new()).radio_playlist_id.as_deref(), Some("RDEMabc123"));
    let bare = parse(r#"{ "header": { "musicImmersiveHeaderRenderer": { "title": { "runs": [{ "text": "An Artist" }] } } } }"#);
    let a = artist_page(&bare, "UCx", Vec::new(), Vec::new());
    assert_eq!(a.radio_playlist_id, None);
    assert_eq!(a.channel_id, "UCx");
    assert_eq!(a.name.as_deref(), Some("An Artist"));
}

#[test]
fn parses_album_page() {
    let root = parse(
        r#"{
        "header": { "musicResponsiveHeaderRenderer": {
            "title": { "runs": [{ "text": "ICEMAN" }] },
            "subtitle": { "runs": [{ "text": "Album • 2026" }] },
            "secondSubtitle": { "runs": [{ "text": "18 songs • 1 hour, 8 minutes" }] },
            "straplineTextOne": { "runs": [
                { "text": "Drake", "navigationEndpoint": { "browseEndpoint": { "browseId": "UCdrake" } } },
                { "text": " & " },
                { "text": "Metro", "navigationEndpoint": { "browseEndpoint": { "browseId": "UCmetro" } } }
            ] },
            "straplineThumbnail": { "musicThumbnailRenderer": { "thumbnail": { "thumbnails": [
                { "url": "artist_avatar.jpg" }
            ] } } },
            "thumbnail": { "musicThumbnailRenderer": { "thumbnail": { "thumbnails": [
                { "url": "cover_small.jpg" }, { "url": "cover_big.jpg" }
            ] } } },
            "description": { "runs": [{ "text": "Iceman is one of three studio albums." }] }
        } },
        "contents": { "singleColumnBrowseResultsRenderer": { "tabs": [{ "tabRenderer": { "content": {
            "sectionListRenderer": { "contents": [
                { "musicShelfRenderer": { "contents": [
                    { "musicResponsiveListItemRenderer": {
                        "playlistItemData": { "videoId": "trk1" },
                        "flexColumns": [
                            { "musicResponsiveListItemFlexColumnRenderer": { "text": { "runs": [{
                                "text": "Make Them Cry",
                                "navigationEndpoint": { "watchEndpoint": { "videoId": "trk1", "playlistId": "OLAK5uy_iceman" } }
                            }] } } },
                            { "musicResponsiveListItemFlexColumnRenderer": { "text": { "runs": [{ "text": "Drake" }] } } }
                        ]
                    } }
                ] } },
                { "musicCarouselShelfRenderer": { "contents": [
                    { "musicTwoRowItemRenderer": {
                        "title": { "runs": [{ "text": "Other Album" }] },
                        "thumbnailOverlay": { "musicItemThumbnailOverlayRenderer": { "content": {
                            "musicPlayButtonRenderer": { "playNavigationEndpoint": {
                                "watchPlaylistEndpoint": { "playlistId": "OLAK5uy_other" }
                            } }
                        } } }
                    } }
                ] } }
            ] }
        } } }] } }
    }"#,
    );
    let runs = vec![run("Drake", Some("UCdrake")), run(" & ", None), run("Metro", Some("UCmetro"))];
    let row = SongItem { artists: "Drake".into(), ..song("trk1") };
    let a = album_page(&root, vec![row], Some("UCdrake".into()), runs.clone(), false);
    assert_eq!(a.title.as_deref(), Some("ICEMAN"));
    assert_eq!(a.subtitle.as_deref(), Some("Album • 2026"));
    assert_eq!(a.second_subtitle.as_deref(), Some("18 songs • 1 hour, 8 minutes"));
    assert_eq!(a.artist.as_deref(), Some("Drake & Metro"));
    assert_eq!(a.artist_id.as_deref(), Some("UCdrake"));
    assert_eq!(a.artist_runs, runs);
    assert_eq!(a.artist_thumbnail.as_deref(), Some("artist_avatar.jpg"));
    assert_eq!(a.thumbnail.as_deref(), Some("cover_big.jpg"));
    assert_eq!(a.description.as_deref(), Some("Iceman is one of three studio albums."));
    assert_eq!(a.items.len(), 1);
    assert_eq!(a.items[0].video_id, "trk1");
    // Track row has no thumbnail of its own → falls back to the album cover (for the player bar).
    assert_eq!(a.items[0].thumbnail.as_deref(), Some("cover_big.jpg"));
    // The album's own OLAK id from the track rows — never the carousel's other-album id.
    assert_eq!(a.playlist_id.as_deref(), Some("OLAK5uy_iceman"));
    assert!(!a.in_library);
}

#[test]
fn album_tracks_inherit_the_header_artist_only_when_they_have_none() {
    let root = parse(
        r#"{ "header": { "musicResponsiveHeaderRenderer": {
            "title": { "runs": [{ "text": "Sjelen" }] },
            "straplineTextOne": { "runs": [
                { "text": "Delara", "navigationEndpoint": { "browseEndpoint": { "browseId": "UCdelara" } } },
                { "text": " & " },
                { "text": "Guest", "navigationEndpoint": { "browseEndpoint": { "browseId": "UCguest" } } }
            ] },
            "thumbnail": { "musicThumbnailRenderer": { "thumbnail": { "thumbnails": [{ "url": "cover.jpg" }] } } }
        } } }"#,
    );
    let runs = vec![run("Delara", Some("UCdelara")), run(" & ", None), run("Guest", Some("UCguest"))];
    let rows = vec![song("t1"), SongItem { artists: "Someone Else".into(), ..song("t2") }];
    let a = album_page(&root, rows, Some("UCdelara".into()), runs, false);
    assert_eq!(a.items.len(), 2);
    assert_eq!(a.items[0].artists, "Delara & Guest");
    assert_eq!(a.items[0].artist_id.as_deref(), Some("UCdelara"));
    assert_eq!(
        a.items[0].artist_runs.iter().map(|r| r.text.as_str()).collect::<Vec<_>>(),
        vec!["Delara", " & ", "Guest"]
    );
    assert_eq!(a.items[1].artists, "Someone Else");
    assert!(a.items[1].artist_runs.is_empty(), "an unlinked row artist must not borrow the header's links");
    assert_eq!(a.items[0].album.as_deref(), Some("Sjelen"));
    assert_eq!(a.items[1].album.as_deref(), Some("Sjelen"));
    assert_eq!(a.items[1].thumbnail.as_deref(), Some("cover.jpg"));
}

#[test]
fn reads_album_library_toggle() {
    let header = |toggled: bool| {
        parse(&format!(
            r#"{{ "header": {{ "musicResponsiveHeaderRenderer": {{
                "title": {{ "runs": [{{ "text": "Saved" }}] }},
                "buttons": [{{ "toggleButtonRenderer": {{
                    "isToggled": {toggled},
                    "defaultServiceEndpoint": {{ "likeEndpoint": {{
                        "status": "LIKE", "target": {{ "playlistId": "OLAK5uy_saved" }}
                    }} }}
                }} }}]
            }} }} }}"#
        ))
    };
    let a = album_page(&header(true), Vec::new(), None, Vec::new(), false);
    assert!(a.in_library);
    assert_eq!(a.playlist_id.as_deref(), Some("OLAK5uy_saved"));
    assert!(!album_page(&header(false), Vec::new(), None, Vec::new(), false).in_library);
}

#[test]
fn album_video_flags_align_with_parsed_items() {
    let row = |id: &str, vtype: Option<&str>| {
        let cfg = match vtype {
            Some(t) => format!(
                r#", "watchEndpointMusicSupportedConfigs": {{ "watchEndpointMusicConfig": {{ "musicVideoType": "{t}" }} }}"#
            ),
            None => String::new(),
        };
        format!(
            r#"{{ "musicResponsiveListItemRenderer": {{ "playlistItemData": {{ "videoId": "{id}" }},
            "flexColumns": [{{ "musicResponsiveListItemFlexColumnRenderer": {{ "text": {{ "runs": [{{
                "text": "x", "navigationEndpoint": {{ "watchEndpoint": {{ "videoId": "{id}"{cfg} }} }}
            }}] }} }} }}] }} }}"#
        )
    };
    let root = parse(&format!(
        r#"{{ "contents": [{}, {}, {}] }}"#,
        row("t1", Some("MUSIC_VIDEO_TYPE_ATV")),
        row("t2", Some("MUSIC_VIDEO_TYPE_OMV")),
        row("t4", None)
    ));
    let rows = find_all(&root, "musicResponsiveListItemRenderer");
    assert_eq!(album_video_flags(&rows), vec![false, true, false]);
}

fn home_root() -> Json {
    parse(
        r#"{
        "header": { "chipCloudRenderer": { "chips": [
            { "chipCloudChipRenderer": {
                "text": { "runs": [{ "text": "Workout" }] },
                "navigationEndpoint": { "browseEndpoint": { "browseId": "FEmusic_home", "params": "ggNC0" } }
            } },
            { "chipCloudChipRenderer": { "text": { "runs": [{ "text": "Nowhere" }] } } }
        ] } },
        "contents": { "sectionListRenderer": {
            "continuations": [{ "nextContinuationData": { "continuation": "HOME_MORE" } }],
            "contents": [
            { "musicCarouselShelfRenderer": {
                "header": { "musicCarouselShelfBasicHeaderRenderer": {
                    "title": { "runs": [{ "text": "Mixed for you" }] },
                    "moreContentButton": { "buttonRenderer": { "navigationEndpoint": {
                        "browseEndpoint": { "browseId": "FEmusic_moods_and_genres_category", "params": "MOREPARAMS" }
                    } } }
                } },
                "contents": [
                    { "musicTwoRowItemRenderer": {
                        "title": { "runs": [{ "text": "My Mix", "navigationEndpoint": {} }] },
                        "subtitle": { "runs": [{ "text": "Playlist" }] },
                        "navigationEndpoint": { "browseEndpoint": { "browseId": "VLPL123" } },
                        "thumbnailRenderer": { "musicThumbnailRenderer": { "thumbnail": { "thumbnails": [
                            { "url": "a.jpg" }, { "url": "b.jpg" }
                        ] } } }
                    } },
                    { "musicTwoRowItemRenderer": {
                        "title": { "runs": [{ "text": "Some Album" }] },
                        "subtitle": { "runs": [{ "text": "Album • Artist" }] },
                        "navigationEndpoint": { "browseEndpoint": { "browseId": "MPREb_abc" } }
                    } }
                ]
            } },
            { "musicCarouselShelfRenderer": {
                "header": { "musicCarouselShelfBasicHeaderRenderer": {
                    "title": { "runs": [{ "text": "Recommended albums" }] }
                } },
                "contents": [
                    { "musicTwoRowItemRenderer": {
                        "title": { "runs": [{ "text": "Another Album" }] },
                        "navigationEndpoint": { "browseEndpoint": { "browseId": "MPREc_xyz" } }
                    } }
                ]
            } }
        ] } }
    }"#,
    )
}

#[test]
fn parses_home_carousel() {
    let root = home_root();
    let sections = home_shelves(&root)
        .into_iter()
        .filter_map(|shelf| {
            let cards = find_all(shelf, "musicTwoRowItemRenderer")
                .into_iter()
                .filter_map(|n| two_row_item(n, false, no_song()))
                .collect();
            home_section(shelf, cards)
        })
        .collect();
    let home = home_page(&root, sections);
    assert_eq!(home.chips.len(), 1);
    assert_eq!(home.chips[0].title, "Workout");
    assert_eq!(home.chips[0].params, "ggNC0");
    assert_eq!(home.sections.len(), 2);
    let s = &home.sections[0];
    assert_eq!(s.title, "Mixed for you");
    assert_eq!(s.items.len(), 2);
    assert_eq!(s.items[0].kind, "playlist");
    assert_eq!(s.items[0].id, "VLPL123");
    assert_eq!(s.items[0].title, "My Mix");
    assert_eq!(s.items[0].subtitle.as_deref(), Some("Playlist"));
    assert_eq!(s.items[0].thumbnail.as_deref(), Some("b.jpg"));
    assert_eq!(s.items[1].kind, "album");
    assert_eq!(s.items[1].id, "MPREb_abc");
    assert_eq!(s.more_browse_id.as_deref(), Some("FEmusic_moods_and_genres_category"));
    assert_eq!(s.more_params.as_deref(), Some("MOREPARAMS"));
    let s2 = &home.sections[1];
    assert_eq!(s2.title, "Recommended albums");
    assert_eq!(s2.more_browse_id, None);
    assert_eq!(s2.more_params, None);
    assert_eq!(home.continuation.as_deref(), Some("HOME_MORE"));
    // A shelf whose cards all failed to parse is left out.
    assert!(home_section(home_shelves(&root)[0], Vec::new()).is_none());
}

#[test]
fn home_continuation_absent_when_no_token() {
    let root = parse(r#"{ "contents": { "sectionListRenderer": { "contents": [] } } }"#);
    assert_eq!(home_page(&root, Vec::new()).continuation, None);
}

#[test]
fn song_card_subtitle_is_the_artist_alone() {
    let node = parse(
        r#"{ "title": { "runs": [{ "text": "Barbie Girl" }] },
        "subtitle": { "runs": [{ "text": "Aqua" }, { "text": " • " }, { "text": "1.7B views" }] },
        "navigationEndpoint": { "watchEndpoint": { "videoId": "vidbarbie" } } }"#,
    );
    let runs = SongRuns { artists: Some("Aqua".into()), duration: None, artist_runs: Vec::new(), is_video: true };
    let c = two_row_item(&node, false, runs).expect("a song card");
    assert_eq!(c.kind, "song");
    assert_eq!(c.id, "vidbarbie");
    assert_eq!(c.subtitle.as_deref(), Some("Aqua"));
    assert!(c.is_video);
    // An album card is not a queue entry, so its subtitle stays whole and the song runs are unused.
    let album = parse(
        r#"{ "title": { "runs": [{ "text": "Plastic Hearts" }] },
        "subtitle": { "runs": [{ "text": "Album" }, { "text": " • " }, { "text": "Miley Cyrus" }] },
        "navigationEndpoint": { "browseEndpoint": { "browseId": "MPREb_hearts" } } }"#,
    );
    let runs = SongRuns { artists: Some("Miley Cyrus".into()), duration: Some("3:00".into()), artist_runs: Vec::new(), is_video: true };
    let c = two_row_item(&album, true, runs).expect("an album card");
    assert_eq!(c.kind, "album");
    assert_eq!(c.subtitle.as_deref(), Some("Album • Miley Cyrus"));
    assert_eq!(c.duration, None);
    assert!(!c.is_video);
    assert!(c.explicit);
    // No title, no card.
    assert!(two_row_item(&parse(r#"{ "navigationEndpoint": { "browseEndpoint": { "browseId": "VLx" } } }"#), false, no_song()).is_none());
}

#[test]
fn parses_library_grid() {
    let root = parse(
        r#"{ "gridRenderer": { "items": [
            { "musicTwoRowItemRenderer": {
                "title": { "runs": [{ "text": "Chill" }] },
                "subtitle": { "runs": [{ "text": "12 songs" }] },
                "navigationEndpoint": { "browseEndpoint": { "browseId": "VLPLchill" } }
            } },
            { "musicTwoRowItemRenderer": {
                "title": { "runs": [{ "text": "Focus" }] },
                "navigationEndpoint": { "browseEndpoint": { "browseId": "VLPLfocus" } }
            } }
        ] } }"#,
    );
    let (cards, rows) = library_parts(&root);
    assert!(rows.is_empty());
    let cards: Vec<BrowseItem> = cards.into_iter().filter_map(|n| two_row_item(n, false, no_song())).collect();
    let items = library_grid(cards, Vec::new());
    assert_eq!(items.len(), 2);
    assert!(items.iter().all(|i| i.kind == "playlist"));
    assert_eq!(items[0].id, "VLPLchill");
    assert_eq!(items[0].subtitle.as_deref(), Some("12 songs"));
    // No cards: the list rows (library artists) are the grid.
    assert_eq!(library_grid(Vec::new(), vec![card("artist", "UCk")]).len(), 1);
}

#[test]
fn parses_library_artists_shelf() {
    let root = parse(
        r#"{ "musicShelfRenderer": { "contents": [
            { "musicResponsiveListItemRenderer": {
                "navigationEndpoint": { "browseEndpoint": { "browseId": "MPLAUCkajiura" } }
            } }
        ] } }"#,
    );
    let (cards, rows) = library_parts(&root);
    assert!(cards.is_empty());
    let c = list_item_card(rows[0], Some("Yuki Kajiura".into()), Some("181 songs".into()), None, false, no_song())
        .expect("an artist card");
    assert_eq!(c.kind, "artist");
    assert_eq!(c.id, "UCkajiura");
    assert_eq!(c.subtitle.as_deref(), Some("181 songs"));
}

#[test]
fn parses_search_all_sections() {
    let root = parse(
        r#"{ "contents": { "tabbedSearchResultsRenderer": { "tabs": [{ "tabRenderer": { "content": {
        "sectionListRenderer": { "contents": [
            { "musicCardShelfRenderer": {
                "title": { "runs": [{ "text": "The Artist", "navigationEndpoint": { "browseEndpoint": { "browseId": "UCart" } } }] },
                "subtitle": { "runs": [{ "text": "Artist" }] },
                "thumbnail": { "musicThumbnailRenderer": { "thumbnail": { "thumbnails": [{ "url": "top.jpg" }] } } },
                "contents": []
            } },
            { "itemSectionRenderer": { "contents": [{ "musicResponsiveListItemRenderer": {
                "playlistItemData": { "videoId": "svid" } } }] } },
            { "itemSectionRenderer": { "contents": [{ "musicResponsiveListItemRenderer": {
                "navigationEndpoint": { "browseEndpoint": { "browseId": "MPREalb" } } } }] } },
            { "itemSectionRenderer": { "contents": [{ "musicResponsiveListItemRenderer": {
                "navigationEndpoint": { "browseEndpoint": { "browseId": "UCart" } } } }] } }
        ] }
    } } }] } } }"#,
    );
    let (cards, rows) = search_parts(&root);
    assert_eq!(cards.len(), 1);
    assert_eq!(rows.len(), 3);
    assert!(card_related_rows(cards[0]).is_empty());
    let top: Vec<BrowseItem> = cards.iter().filter_map(|c| card_shelf_main(c, false, no_song())).collect();
    assert_eq!(top[0].thumbnail.as_deref(), Some("top.jpg"));
    let song_runs = SongRuns {
        artists: Some("An Artist & Another".into()),
        duration: Some("3:02".into()),
        artist_runs: vec![run("An Artist", Some("UCart")), run(" & ", None), run("Another", Some("UCtwo"))],
        is_video: false,
    };
    let parsed = vec![
        list_item_card(rows[0], Some("A Song".into()), Some("Song • An Artist & Another • 3:02".into()), Some("svid".into()), false, song_runs),
        list_item_card(rows[1], Some("An Album".into()), Some("2026".into()), None, false, no_song()),
        list_item_card(rows[2], Some("The Artist".into()), None, None, false, no_song()),
    ];
    let r = search_results(top, parsed.into_iter().flatten().collect());
    assert_eq!(r.top.len(), 1);
    assert_eq!(r.top[0].kind, "artist");
    assert_eq!(r.top[0].id, "UCart");
    assert_eq!(r.songs.len(), 1);
    assert_eq!(r.songs[0].kind, "song");
    assert_eq!(r.songs[0].id, "svid");
    assert_eq!(r.songs[0].subtitle.as_deref(), Some("An Artist & Another"));
    assert_eq!(
        r.songs[0].artist_runs.iter().map(|x| (x.text.as_str(), x.id.as_deref())).collect::<Vec<_>>(),
        [("An Artist", Some("UCart")), (" & ", None), ("Another", Some("UCtwo"))]
    );
    assert_eq!(r.albums.len(), 1);
    assert_eq!(r.albums[0].kind, "album");
    assert_eq!(r.albums[0].id, "MPREalb");
    assert!(r.albums[0].artist_runs.is_empty());
    assert_eq!(r.artists.len(), 1);
    assert_eq!(r.artists[0].kind, "artist");
    assert_eq!(r.artists[0].title, "The Artist");
    assert!(r.playlists.is_empty());
}

#[test]
fn carousel_track_rows_become_song_cards() {
    let row = SongItem {
        artists: "The Artist".into(),
        duration: Some("3:47".into()),
        ..song("vid123")
    };
    let c = song_card(row);
    assert_eq!(c.kind, "song");
    assert_eq!(c.id, "vid123");
    assert_eq!(c.subtitle.as_deref(), Some("The Artist"));
    assert_eq!(c.duration.as_deref(), Some("3:47"));
    assert_eq!(song_card(song("v")).subtitle, None);
}
