use serde_json::Value;
use yapel::browse::{BrowseItem, PlaylistSort, SongItem};
use yapel::commands::{
    album_route, browser_url_check, editable_playlist, font_extension_check, font_file_check, is_browser_url,
    is_ui_setting, library_items, metadata_client, on_repeat_card, on_repeat_page, playlist_request, repeat_mode,
    require_login, setting_effects, shed_queue_context, visible_settings, AlbumRoute, PlaylistRequest, RepeatMode,
    SettingEffect, ON_REPEAT_ID,
};
use yapel::json::Json;
use yapel::player::AudioProfile;

fn from_json(j: &Json) -> Value {
    match j {
        Json::Null => Value::Null,
        Json::Bool(b) => Value::Bool(*b),
        Json::Int(i) => Value::from(*i),
        Json::OtherNumber(s) => serde_json::from_str(s).unwrap(),
        Json::Str(s) => Value::String(s.clone()),
        Json::Array(a) => Value::Array(a.iter().map(from_json).collect()),
        Json::Object(o) => Value::Object(o.iter().map(|(k, v)| (k.clone(), from_json(v))).collect()),
    }
}

#[test]
fn browser_urls_must_be_http() {
    assert!(is_browser_url("https://github.com/joshazmy/cider-ytm/releases"));
    assert!(is_browser_url("http://127.0.0.1:1"));
    assert!(!is_browser_url("file:///etc/passwd"));
    assert!(!is_browser_url("javascript:alert(1)"));
}

#[test]
fn on_repeat_rows_shed_the_queue_slot_they_were_played_from() {
    let played = SongItem {
        video_id: "abc".into(),
        title: "Grace".into(),
        queued: true,
        queued_by: Some("simohypers".into()),
        autoplay: true,
        set_video_id: Some("SVI".into()),
        ..Default::default()
    };
    let row = shed_queue_context(played.clone());
    assert_eq!(row, SongItem { video_id: "abc".into(), title: "Grace".into(), ..Default::default() });
    assert_eq!(row.title, played.title, "the song itself survives");
}

#[test]
fn refuses_non_http_urls_in_words() {
    assert_eq!(browser_url_check("https://last.fm"), Ok(()));
    assert_eq!(browser_url_check("file:///x"), Err("only http(s) URLs can open in the browser".to_string()));
}

#[test]
fn session_material_never_reaches_the_webview() {
    let rows = vec![
        ("volume".to_string(), "80".to_string()),
        ("session_cookie".to_string(), "SAPISID=secret".to_string()),
        ("queue_json".to_string(), "[]".to_string()),
        ("hide_videos".to_string(), "true".to_string()),
    ];
    let v = from_json(&visible_settings(&rows));
    assert_eq!(v, serde_json::from_str::<Value>(r#"{ "volume": "80", "hide_videos": "true" }"#).unwrap());
    assert!(!is_ui_setting("session_cookie"));
    assert!(is_ui_setting("sleep_mins"));
}

#[test]
fn writing_a_setting_stores_it_and_sets_off_its_effect() {
    assert_eq!(setting_effects("account_json", "{}"), Err("unknown setting: account_json".to_string()));
    let store = |k: &str, v: &str| SettingEffect::Store { key: k.into(), value: v.into() };
    assert_eq!(setting_effects("volume", "50"), Ok(vec![store("volume", "50")]));
    assert_eq!(
        setting_effects("discord_rpc", "true"),
        Ok(vec![store("discord_rpc", "true"), SettingEffect::DiscordEnabled(true)])
    );
    assert_eq!(
        setting_effects("hide_videos", "no"),
        Ok(vec![store("hide_videos", "no"), SettingEffect::HideVideos(false)])
    );
    assert_eq!(
        setting_effects("lyrics_boidu", "false"),
        Ok(vec![store("lyrics_boidu", "false"), SettingEffect::ClearLyricsCache])
    );
    assert_eq!(
        setting_effects("audio_profile", "Dimisco"),
        Ok(vec![store("audio_profile", "Dimisco"), SettingEffect::Profile(AudioProfile::Dimisco)])
    );
    assert_eq!(
        setting_effects("eq_preset", "bass"),
        Ok(vec![store("eq_preset", "bass"), SettingEffect::EqPreset("bass".into())])
    );
    assert_eq!(
        setting_effects("autostart", "true"),
        Ok(vec![store("autostart", "true"), SettingEffect::Autostart(true)])
    );
}

#[test]
fn repeat_modes_by_name() {
    assert_eq!(repeat_mode("off"), Ok(RepeatMode::Off));
    assert_eq!(repeat_mode("all"), Ok(RepeatMode::All));
    assert_eq!(repeat_mode("one"), Ok(RepeatMode::One));
    assert_eq!(repeat_mode("shuffle"), Err("unknown repeat mode: shuffle".to_string()));
}

#[test]
fn edits_need_a_real_playlist_and_a_login() {
    let client = 7u32;
    assert_eq!(metadata_client(Some(&client)), Ok(&client));
    assert_eq!(metadata_client::<u32>(None), Err("metadata client missing".to_string()));
    assert_eq!(require_login(false, Some(&client)), Err("Sign in first to use this.".to_string()));
    assert_eq!(require_login(true, Some(&client)), Ok(&client));
    assert_eq!(
        editable_playlist(ON_REPEAT_ID, true, Some(&client)),
        Err("On Repeat builds itself from what you play.".to_string())
    );
    assert_eq!(editable_playlist("PLx", false, Some(&client)), Err("Sign in first to use this.".to_string()));
    assert_eq!(editable_playlist("PLx", true, Some(&client)), Ok(&client));
}

fn card(id: &str) -> BrowseItem {
    BrowseItem {
        kind: "playlist",
        id: id.into(),
        title: id.into(),
        subtitle: None,
        thumbnail: None,
        duration: None,
        artist_runs: Vec::new(),
        is_video: false,
        explicit: false,
    }
}

#[test]
fn on_repeat_leads_the_library_once_it_has_songs() {
    assert_eq!(library_items(vec![card("PL1")], 0).len(), 1);
    let items = library_items(vec![card("PL1"), card("PL2")], 12);
    assert_eq!(items.len(), 3);
    assert_eq!(items[0].id, ON_REPEAT_ID);
    assert_eq!(items[0].title, "On Repeat");
    assert_eq!(items[0].subtitle.as_deref(), Some("12 songs"));
    assert_eq!(items[1].id, "PL1");
    let tile = on_repeat_card(1);
    assert_eq!(tile.kind, "playlist");
    assert!(tile.thumbnail.is_none());
}

#[test]
fn on_repeat_page_is_local_and_fixed() {
    let songs = vec![SongItem { video_id: "a".into(), ..Default::default() }];
    let page = on_repeat_page(songs.clone());
    assert_eq!(page.title.as_deref(), Some("On Repeat"));
    assert_eq!(page.subtitle.as_deref(), Some("1 songs you've played most this month"));
    assert_eq!(page.items, songs);
    assert!(!page.owned);
    assert!(page.sort_menu.is_none());
    assert!(page.continuation.is_none());
}

#[test]
fn playlist_pages_come_from_the_right_place() {
    assert_eq!(playlist_request(ON_REPEAT_ID.into(), None, None), PlaylistRequest::OnRepeat);
    assert_eq!(
        playlist_request("VLLM".into(), Some(PlaylistSort::Title), None),
        PlaylistRequest::YouTube { id: "VLLM".into(), sort: Some((PlaylistSort::Title, false)) }
    );
    assert_eq!(
        playlist_request("VLLM".into(), Some(PlaylistSort::Newest), Some(true)),
        PlaylistRequest::YouTube { id: "VLLM".into(), sort: Some((PlaylistSort::Newest, true)) }
    );
    assert_eq!(playlist_request("VLPL".into(), None, Some(true)), PlaylistRequest::YouTube { id: "VLPL".into(), sort: None });
}

#[test]
fn album_pages_route_local_ids_locally() {
    assert_eq!(album_route("LOCAL_ALBUM:k1", "LOCAL_ALBUM:", "LOCAL_ARTIST:"), AlbumRoute::LocalAlbum("k1".into()));
    assert_eq!(album_route("LOCAL_ARTIST:Aqua", "LOCAL_ALBUM:", "LOCAL_ARTIST:"), AlbumRoute::LocalArtist("Aqua".into()));
    assert_eq!(album_route("MPREb_x", "LOCAL_ALBUM:", "LOCAL_ARTIST:"), AlbumRoute::YouTube("MPREb_x".into()));
}

#[test]
fn only_font_files_get_a_url() {
    assert_eq!(font_extension_check(Some("TTF".into()), "/f/a.TTF"), Ok(()));
    assert_eq!(font_extension_check(Some("woff2".into()), "/f/a.woff2"), Ok(()));
    assert_eq!(font_extension_check(None, "/f/a"), Err("not a font file: /f/a".to_string()));
    assert_eq!(font_file_check("/home/u/fonts/Inter.otf"), Ok(()));
    assert_eq!(font_file_check("/etc/passwd"), Err("not a font file: /etc/passwd".to_string()));
    assert_eq!(font_file_check("/home/u/.ttf"), Err("not a font file: /home/u/.ttf".to_string()));
    assert_eq!(font_file_check("/home/u/x.ttf.txt"), Err("not a font file: /home/u/x.ttf.txt".to_string()));
}
