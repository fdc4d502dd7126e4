//! The decisions behind the commands the UI calls: which settings the webview may see and write
//! and what writing one sets off, the repeat modes, the sign-in and playlist-edit guards, the
//! local On Repeat list, which URLs may open in the browser, and which files may be fonts.
use vstd::prelude::*;

use crate::browse::{BrowseItem, PlaylistPage, PlaylistSort, SongItem};
use crate::json::{fields_view, json_view, lemma_fields_view, Json, JsonV};
use crate::player::{profile_named, AudioProfile};
use crate::text::{
    ascii_lower_seq, is_prefix, owned, push_str, starts_with, str_eq, strip_prefix, to_ascii_lowercase, u64_text,
    nat_digits,
};

verus! {

// --- settings --------------------------------------------------------------------------------------

/// The settings the UI may read and write. Session and auth material (the session cookie, the
/// selected identity, the data sync id, the account, the pending selection, the visitor data) and
/// internal blobs (the saved queue and position) never reach the webview, and it cannot overwrite
/// them either.
pub open spec fn is_ui_setting_key(k: Seq<char>) -> bool {
    k == "volume"@ || k == "proxy"@ || k == "quality"@ || k == "enable_history"@
        || k == "disabled_stream_clients"@ || k == "discord_rpc"@ || k == "close_to_tray"@
        || k == "autostart"@ || k == "autoplay"@ || k == "hide_videos"@ || k == "prevent_duplicates"@
        || k == "update_banner"@ || k == "lyrics_boidu"@ || k == "playback_speed"@
        || k == "playback_semitones"@ || k == "audio_profile"@ || k == "fade_secs"@
        || k == "warn_before_queue_override"@ || k == "eq_preset"@ || k == "notifications"@
        || k == "sleep_mins"@
}

/// The UI settings list, in the order the app declares it.
pub open spec fn ui_setting_keys() -> Seq<Seq<char>> {
    seq![
        "volume"@,
        "proxy"@,
        "quality"@,
        "enable_history"@,
        "disabled_stream_clients"@,
        "discord_rpc"@,
        "close_to_tray"@,
        "autostart"@,
        "autoplay"@,
        "hide_videos"@,
        "prevent_duplicates"@,
        "update_banner"@,
        "lyrics_boidu"@,
        "playback_speed"@,
        "playback_semitones"@,
        "audio_profile"@,
        "fade_secs"@,
        "warn_before_queue_override"@,
        "eq_preset"@,
        "notifications"@,
        "sleep_mins"@,
    ]
}

proof fn lemma_secret_keys_hidden()
    ensures
        !is_ui_setting_key("session_cookie"@),
        !is_ui_setting_key("selected_identity_json"@),
        !is_ui_setting_key("data_sync_id"@),
        !is_ui_setting_key("account_json"@),
        !is_ui_setting_key("account_selection_pending"@),
        !is_ui_setting_key("visitor_data"@),
        !is_ui_setting_key("queue_json"@),
        !is_ui_setting_key("queue_position"@),
{
    reveal_strlit("session_cookie");
    reveal_strlit("volume");
    reveal_strlit("proxy");
    reveal_strlit("quality");
    reveal_strlit("enable_history");
    reveal_strlit("disabled_stream_clients");
    reveal_strlit("discord_rpc");
    reveal_strlit("close_to_tray");
    reveal_strlit("autostart");
    reveal_strlit("autoplay");
    reveal_strlit("hide_videos");
    reveal_strlit("prevent_duplicates");
    reveal_strlit("update_banner");
    reveal_strlit("lyrics_boidu");
    reveal_strlit("playback_speed");
    reveal_strlit("playback_semitones");
    reveal_strlit("audio_profile");
    reveal_strlit("fade_secs");
    reveal_strlit("warn_before_queue_override");
    reveal_strlit("eq_preset");
    reveal_strlit("notifications");
    reveal_strlit("sleep_mins");
    reveal_strlit("selected_identity_json");
    reveal_strlit("data_sync_id");
    reveal_strlit("account_json");
    reveal_strlit("account_selection_pending");
    reveal_strlit("visitor_data");
    reveal_strlit("queue_json");
    reveal_strlit("queue_position");
    assert("session_cookie"@[0] != "enable_history"@[0]);
    assert("session_cookie"@ != "enable_history"@);
    assert("session_cookie"@[0] != "playback_speed"@[0]);
    assert("session_cookie"@ != "playback_speed"@);
    assert("session_cookie"@.len() != "volume"@.len());
    assert("session_cookie"@.len() != "proxy"@.len());
    assert("session_cookie"@.len() != "quality"@.len());
    assert("session_cookie"@.len() != "disabled_stream_clients"@.len());
    assert("session_cookie"@.len() != "discord_rpc"@.len());
    assert("session_cookie"@.len() != "close_to_tray"@.len());
    assert("session_cookie"@.len() != "autostart"@.len());
    assert("session_cookie"@.len() != "autoplay"@.len());
    assert("session_cookie"@.len() != "hide_videos"@.len());
    assert("session_cookie"@.len() != "prevent_duplicates"@.len());
    assert("session_cookie"@.len() != "update_banner"@.len());
    assert("session_cookie"@.len() != "lyrics_boidu"@.len());
    assert("session_cookie"@.len() != "playback_semitones"@.len());
    assert("session_cookie"@.len() != "audio_profile"@.len());
    assert("session_cookie"@.len() != "fade_secs"@.len());
    assert("session_cookie"@.len() != "warn_before_queue_override"@.len());
    assert("session_cookie"@.len() != "eq_preset"@.len());
    assert("session_cookie"@.len() != "notifications"@.len());
    assert("session_cookie"@.len() != "sleep_mins"@.len());
    assert(!is_ui_setting_key("session_cookie"@));
    assert("selected_identity_json"@.len() != "volume"@.len());
    assert("selected_identity_json"@.len() != "proxy"@.len());
    assert("selected_identity_json"@.len() != "quality"@.len());
    assert("selected_identity_json"@.len() != "enable_history"@.len());
    assert("selected_identity_json"@.len() != "disabled_stream_clients"@.len());
    assert("selected_identity_json"@.len() != "discord_rpc"@.len());
    assert("selected_identity_json"@.len() != "close_to_tray"@.len());
    assert("selected_identity_json"@.len() != "autostart"@.len());
    assert("selected_identity_json"@.len() != "autoplay"@.len());
    assert("selected_identity_json"@.len() != "hide_videos"@.len());
    assert("selected_identity_json"@.len() != "prevent_duplicates"@.len());
    assert("selected_identity_json"@.len() != "update_banner"@.len());
    assert("selected_identity_json"@.len() != "lyrics_boidu"@.len());
    assert("selected_identity_json"@.len() != "playback_speed"@.len());
    assert("selected_identity_json"@.len() != "playback_semitones"@.len());
    assert("selected_identity_json"@.len() != "audio_profile"@.len());
    assert("selected_identity_json"@.len() != "fade_secs"@.len());
    assert("selected_identity_json"@.len() != "warn_before_queue_override"@.len());
    assert("selected_identity_json"@.len() != "eq_preset"@.len());
    assert("selected_identity_json"@.len() != "notifications"@.len());
    assert("selected_identity_json"@.len() != "sleep_mins"@.len());
    assert(!is_ui_setting_key("selected_identity_json"@));
    assert("data_sync_id"@[0] != "lyrics_boidu"@[0]);
    assert("data_sync_id"@ != "lyrics_boidu"@);
    assert(!is_ui_setting_key("data_sync_id"@));
    assert("account_json"@[0] != "lyrics_boidu"@[0]);
    assert("account_json"@ != "lyrics_boidu"@);
    assert(!is_ui_setting_key("account_json"@));
    assert(!is_ui_setting_key("account_selection_pending"@));
    assert("visitor_data"@[0] != "lyrics_boidu"@[0]);
    assert("visitor_data"@ != "lyrics_boidu"@);
    assert(!is_ui_setting_key("visitor_data"@));
    assert("queue_json"@[0] != "sleep_mins"@[0]);
    assert("queue_json"@ != "sleep_mins"@);
    assert(!is_ui_setting_key("queue_json"@));
    assert("queue_position"@[0] != "enable_history"@[0]);
    assert("queue_position"@ != "enable_history"@);
    assert("queue_position"@[0] != "playback_speed"@[0]);
    assert("queue_position"@ != "playback_speed"@);
    assert(!is_ui_setting_key("queue_position"@));
}

/// The UI may read and write exactly the settings of its list, 21 distinct keys, and none of the
/// session, account or queue material: a key is a UI setting if and only if the list holds it.
pub proof fn law_ui_settings(k: Seq<char>)
    ensures
        is_ui_setting_key(k) <==> ui_setting_keys().contains(k),
        ui_setting_keys().len() == 21,
        ui_setting_keys().no_duplicates(),
        !is_ui_setting_key("session_cookie"@),
        !is_ui_setting_key("selected_identity_json"@),
        !is_ui_setting_key("data_sync_id"@),
        !is_ui_setting_key("account_json"@),
        !is_ui_setting_key("account_selection_pending"@),
        !is_ui_setting_key("visitor_data"@),
        !is_ui_setting_key("queue_json"@),
        !is_ui_setting_key("queue_position"@),
{
    reveal_strlit("volume");
    reveal_strlit("proxy");
    reveal_strlit("quality");
    reveal_strlit("enable_history");
    reveal_strlit("disabled_stream_clients");
    reveal_strlit("discord_rpc");
    reveal_strlit("close_to_tray");
    reveal_strlit("autostart");
    reveal_strlit("autoplay");
    reveal_strlit("hide_videos");
    reveal_strlit("prevent_duplicates");
    reveal_strlit("update_banner");
    reveal_strlit("lyrics_boidu");
    reveal_strlit("playback_speed");
    reveal_strlit("playback_semitones");
    reveal_strlit("audio_profile");
    reveal_strlit("fade_secs");
    reveal_strlit("warn_before_queue_override");
    reveal_strlit("eq_preset");
    reveal_strlit("notifications");
    reveal_strlit("sleep_mins");
    reveal_strlit("session_cookie");
    reveal_strlit("selected_identity_json");
    reveal_strlit("data_sync_id");
    reveal_strlit("account_json");
    reveal_strlit("account_selection_pending");
    reveal_strlit("visitor_data");
    reveal_strlit("queue_json");
    reveal_strlit("queue_position");
    lemma_secret_keys_hidden();
    let l = ui_setting_keys();
    assert forall|i: int, j: int| 0 <= i < l.len() && 0 <= j < l.len() && i != j implies l[i] != l[j] by {
        if l[i] == l[j] {
            assert(l[i].len() == l[j].len());
            assert(l[i][0] == l[j][0]);
            assert(l[i][l[i].len() - 1] == l[j][l[j].len() - 1]);
            assert(l[i][2] == l[j][2]);
            assert(l[i][3] == l[j][3]);
        }
    }
    if is_ui_setting_key(k) {
        if k == "volume"@ { assert(l[0] == k); }
        if k == "proxy"@ { assert(l[1] == k); }
        if k == "quality"@ { assert(l[2] == k); }
        if k == "enable_history"@ { assert(l[3] == k); }
        if k == "disabled_stream_clients"@ { assert(l[4] == k); }
        if k == "discord_rpc"@ { assert(l[5] == k); }
        if k == "close_to_tray"@ { assert(l[6] == k); }
        if k == "autostart"@ { assert(l[7] == k); }
        if k == "autoplay"@ { assert(l[8] == k); }
        if k == "hide_videos"@ { assert(l[9] == k); }
        if k == "prevent_duplicates"@ { assert(l[10] == k); }
        if k == "update_banner"@ { assert(l[11] == k); }
        if k == "lyrics_boidu"@ { assert(l[12] == k); }
        if k == "playback_speed"@ { assert(l[13] == k); }
        if k == "playback_semitones"@ { assert(l[14] == k); }
        if k == "audio_profile"@ { assert(l[15] == k); }
        if k == "fade_secs"@ { assert(l[16] == k); }
        if k == "warn_before_queue_override"@ { assert(l[17] == k); }
        if k == "eq_preset"@ { assert(l[18] == k); }
        if k == "notifications"@ { assert(l[19] == k); }
        if k == "sleep_mins"@ { assert(l[20] == k); }
    }
    if l.contains(k) {
        let i = choose|i: int| 0 <= i < l.len() && l[i] == k;
        assert(is_ui_setting_key(l[i]));
    }
}

/// Whether the UI may read and write the setting `key`.
pub fn is_ui_setting(key: &str) -> (r: bool)
    ensures
        r == is_ui_setting_key(key@),
{
    str_eq(key, "volume") || str_eq(key, "proxy") || str_eq(key, "quality") || str_eq(key, "enable_history")
        || str_eq(key, "disabled_stream_clients") || str_eq(key, "discord_rpc") || str_eq(key, "close_to_tray")
        || str_eq(key, "autostart") || str_eq(key, "autoplay") || str_eq(key, "hide_videos")
        || str_eq(key, "prevent_duplicates") || str_eq(key, "update_banner") || str_eq(key, "lyrics_boidu")
        || str_eq(key, "playback_speed") || str_eq(key, "playback_semitones") || str_eq(key, "audio_profile")
        || str_eq(key, "fade_secs") || str_eq(key, "warn_before_queue_override") || str_eq(key, "eq_preset")
        || str_eq(key, "notifications") || str_eq(key, "sleep_mins")
}

/// The stored settings the webview gets, as `key → value` strings, in the order stored.
pub open spec fn visible_settings_of(rows: Seq<(Seq<char>, Seq<char>)>) -> Seq<(Seq<char>, JsonV)>
    decreases rows.len(),
{
    if rows.len() == 0 {
        Seq::empty()
    } else {
        let prev = visible_settings_of(rows.drop_last());
        let r = rows.last();
        if is_ui_setting_key(r.0) { prev.push((r.0, JsonV::Str(r.1))) } else { prev }
    }
}

/// The webview sees exactly the stored UI settings, in the order stored, each value as a string:
/// no stored row is left out unless its key is not a UI setting, and no other row is shown.
pub proof fn law_visible_settings(rows: Seq<(Seq<char>, Seq<char>)>)
    ensures
        visible_settings_of(rows) == rows.filter(|r: (Seq<char>, Seq<char>)| is_ui_setting_key(r.0)).map_values(
            |r: (Seq<char>, Seq<char>)| (r.0, JsonV::Str(r.1)),
        ),
    decreases rows.len(),
{
    let f = |r: (Seq<char>, Seq<char>)| (r.0, JsonV::Str(r.1));
    let p = |r: (Seq<char>, Seq<char>)| is_ui_setting_key(r.0);
    if rows.len() == 0 {
        assert(rows.filter(p) =~= Seq::<(Seq<char>, Seq<char>)>::empty()) by {
            reveal(Seq::filter);
        }
        assert(rows.filter(p).map_values(f) =~= Seq::<(Seq<char>, JsonV)>::empty());
    } else {
        law_visible_settings(rows.drop_last());
        assert(rows =~= rows.drop_last().push(rows.last()));
        rows.drop_last().lemma_filter_push(rows.last(), p);
        if p(rows.last()) {
            assert(rows.filter(p).map_values(f) =~= rows.drop_last().filter(p).map_values(f).push(f(rows.last())));
        }
    }
}

pub open spec fn rows_view(rows: Seq<(String, String)>) -> Seq<(Seq<char>, Seq<char>)> {
    rows.map_values(|r: (String, String)| (r.0@, r.1@))
}

proof fn lemma_visible_only_ui(rows: Seq<(Seq<char>, Seq<char>)>)
    ensures
        forall|i: int| 0 <= i < visible_settings_of(rows).len() ==> is_ui_setting_key(#[trigger] visible_settings_of(rows)[i].0),
    decreases rows.len(),
{
    if rows.len() > 0 {
        let prev = rows.drop_last();
        lemma_visible_only_ui(prev);
        let v = visible_settings_of(rows);
        let pv = visible_settings_of(prev);
        assert forall|i: int| 0 <= i < v.len() implies is_ui_setting_key(#[trigger] v[i].0) by {
            if i < pv.len() {
                assert(v[i] == pv[i]);
            }
        }
    }
}

/// The settings object the UI reads: only the UI's own settings, each as a string. Nothing else
/// stored ever crosses into the webview.
pub fn visible_settings(rows: &Vec<(String, String)>) -> (r: Json)
    ensures
        r@ == JsonV::Object(visible_settings_of(rows_view(rows@))),
        forall|i: int| 0 <= i < visible_settings_of(rows_view(rows@)).len()
            ==> is_ui_setting_key(#[trigger] visible_settings_of(rows_view(rows@))[i].0),
{
    let ghost rv = rows_view(rows@);
    let mut fields: Vec<(String, Json)> = Vec::new();
    let mut i: usize = 0;
    while i < rows.len()
        invariant
            0 <= i <= rows@.len(),
            rv == rows_view(rows@),
            fields_view(fields@) == visible_settings_of(rv.take(i as int)),
        decreases rows@.len() - i,
    {
        assert(rv.take(i + 1).drop_last() =~= rv.take(i as int));
        assert(rv.take(i + 1).last() == rv[i as int]);
        if is_ui_setting(rows[i].0.as_str()) {
            let ghost before = fields@;
            fields.push((rows[i].0.clone(), Json::Str(rows[i].1.clone())));
            proof {
                lemma_fields_view(before);
                lemma_fields_view(fields@);
                assert(fields_view(fields@) =~= fields_view(before).push((rv[i as int].0, JsonV::Str(rv[i as int].1))));
            }
        }
        i = i + 1;
    }
    assert(rv.take(rows@.len() as int) =~= rv);
    proof {
        lemma_visible_only_ui(rv);
    }
    Json::Object(fields)
}

/// What writing a setting sets off, besides storing it.
#[derive(Debug, Clone, PartialEq)]
pub enum SettingEffect {
    /// Store the value under the key.
    Store { key: String, value: String },
    /// Discord presence connects or clears at once.
    DiscordEnabled(bool),
    /// Whether videos are left out of what is fetched from here on.
    HideVideos(bool),
    /// Cached lyrics go: they were fetched under the old Boidu setting.
    ClearLyricsCache,
    /// The player switches to this desk profile (and the desk file records it).
    Profile(AudioProfile),
    /// The player takes this equalizer preset.
    EqPreset(String),
    /// Login autostart is registered (`true`) or removed.
    Autostart(bool),
}

/// A setting whose write does more than store the value.
pub open spec fn has_side_effect(key: Seq<char>) -> bool {
    key == "discord_rpc"@ || key == "hide_videos"@ || key == "lyrics_boidu"@ || key == "audio_profile"@
        || key == "eq_preset"@ || key == "autostart"@
}

/// `e` is what writing `value` to `key` sets off.
pub open spec fn side_effect_is(e: SettingEffect, key: Seq<char>, value: Seq<char>) -> bool {
    match e {
        SettingEffect::DiscordEnabled(b) => key == "discord_rpc"@ && b == (value == "true"@),
        SettingEffect::HideVideos(b) => key == "hide_videos"@ && b == (value == "true"@),
        SettingEffect::ClearLyricsCache => key == "lyrics_boidu"@,
        SettingEffect::Profile(p) => key == "audio_profile"@ && p == profile_named(value),
        SettingEffect::EqPreset(s) => key == "eq_preset"@ && s@ == value,
        SettingEffect::Autostart(b) => key == "autostart"@ && b == (value == "true"@),
        SettingEffect::Store { .. } => false,
    }
}

/// What writing `value` to the setting `key` does: refused unless it is one of the UI's settings;
/// else stored, plus the one effect that setting has, if any.
pub fn setting_effects(key: &str, value: &str) -> (r: Result<Vec<SettingEffect>, String>)
    ensures
        match r {
            Err(m) => !is_ui_setting_key(key@) && m@ == "unknown setting: "@ + key@,
            Ok(v) => {
                &&& is_ui_setting_key(key@)
                &&& v@.len() == (if has_side_effect(key@) { 2int } else { 1int })
                &&& v@[0] matches SettingEffect::Store { key: k, value: val } && k@ == key@ && val@ == value@
                &&& has_side_effect(key@) ==> side_effect_is(v@[1], key@, value@)
            },
        },
{
    if !is_ui_setting(key) {
        let mut m = owned("unknown setting: ");
        push_str(&mut m, key);
        return Err(m);
    }
    let mut v: Vec<SettingEffect> = Vec::new();
    v.push(SettingEffect::Store { key: owned(key), value: owned(value) });
    let on = str_eq(value, "true");
    if str_eq(key, "discord_rpc") {
        v.push(SettingEffect::DiscordEnabled(on));
    } else if str_eq(key, "hide_videos") {
        v.push(SettingEffect::HideVideos(on));
    } else if str_eq(key, "lyrics_boidu") {
        v.push(SettingEffect::ClearLyricsCache);
    } else if str_eq(key, "audio_profile") {
        v.push(SettingEffect::Profile(AudioProfile::parse(value)));
    } else if str_eq(key, "eq_preset") {
        v.push(SettingEffect::EqPreset(owned(value)));
    } else if str_eq(key, "autostart") {
        v.push(SettingEffect::Autostart(on));
    }
    Ok(v)
}

// --- repeat ----------------------------------------------------------------------------------------

/// What happens at the end of the queue: stop, start over, or loop the current track.
#[derive(Debug, Clone, Copy, PartialEq, Eq, Structural)]
pub enum RepeatMode {
    Off,
    All,
    One,
}

/// The repeat mode the UI names: `off`, `all` or `one`.
pub fn repeat_mode(mode: &str) -> (r: Result<RepeatMode, String>)
    ensures
        match r {
            Ok(m) => (mode@ == "off"@ && m == RepeatMode::Off) || (mode@ == "all"@ && m == RepeatMode::All)
                || (mode@ == "one"@ && m == RepeatMode::One),
            Err(e) => mode@ != "off"@ && mode@ != "all"@ && mode@ != "one"@ && e@ == "unknown repeat mode: "@ + mode@,
        },
{
    if str_eq(mode, "off") {
        Ok(RepeatMode::Off)
    } else if str_eq(mode, "all") {
        Ok(RepeatMode::All)
    } else if str_eq(mode, "one") {
        Ok(RepeatMode::One)
    } else {
        let mut e = owned("unknown repeat mode: ");
        push_str(&mut e, mode);
        Err(e)
    }
}

// --- guards ----------------------------------------------------------------------------------------

/// The id of the local On Repeat auto-playlist, which YouTube knows nothing about.
pub const ON_REPEAT_ID: &'static str = "LIMUSIC_ON_REPEAT";

/// The client that reads metadata, or the error that it is missing.
pub fn metadata_client<'a, C>(client: Option<&'a C>) -> (r: Result<&'a C, String>)
    ensures
        match client {
            Some(c) => r == Ok::<&'a C, String>(c),
            None => r is Err && r->Err_0@ == "metadata client missing"@,
        },
{
    match client {
        Some(c) => Ok(c),
        None => Err(owned("metadata client missing")),
    }
}

/// Writes need a signed-in account; then the metadata client.
pub fn require_login<'a, C>(logged_in: bool, client: Option<&'a C>) -> (r: Result<&'a C, String>)
    ensures
        !logged_in ==> r is Err && r->Err_0@ == "Sign in first to use this."@,
        logged_in ==> match client {
            Some(c) => r == Ok::<&'a C, String>(c),
            None => r is Err && r->Err_0@ == "metadata client missing"@,
        },
{
    if !logged_in {
        return Err(owned("Sign in first to use this."));
    }
    metadata_client(client)
}

/// Every playlist edit: not On Repeat (it has no YouTube playlist behind it, and YouTube answers
/// 400 for an id it does not know), then signed in.
pub fn editable_playlist<'a, C>(playlist_id: &str, logged_in: bool, client: Option<&'a C>) -> (r: Result<&'a C, String>)
    ensures
        playlist_id@ == ON_REPEAT_ID@ ==> r is Err && r->Err_0@ == "On Repeat builds itself from what you play."@,
        playlist_id@ != ON_REPEAT_ID@ && !logged_in ==> r is Err && r->Err_0@ == "Sign in first to use this."@,
        playlist_id@ != ON_REPEAT_ID@ && logged_in ==> match client {
            Some(c) => r == Ok::<&'a C, String>(c),
            None => r is Err && r->Err_0@ == "metadata client missing"@,
        },
{
    if str_eq(playlist_id, ON_REPEAT_ID) {
        return Err(owned("On Repeat builds itself from what you play."));
    }
    require_login(logged_in, client)
}

// --- On Repeat -------------------------------------------------------------------------------------

/// A play record without the queue slot it was played from: the queued flags, who queued it and
/// from where, the radio mark and the playlist item id go; the song itself stays.
pub fn shed_queue_context(s: SongItem) -> (r: SongItem)
    ensures
        r == (SongItem {
            queued: false,
            queued_end: false,
            queued_from: None,
            queued_by: None,
            autoplay: false,
            set_video_id: None,
            ..s
        }),
{
    SongItem { queued: false, queued_end: false, queued_from: None, queued_by: None, autoplay: false, set_video_id: None, ..s }
}

/// `"{n} songs"`.
fn count_songs(n: usize, tail: &str) -> (r: String)
    ensures
        r@ == nat_digits(n as nat) + tail@,
{
    let mut s = u64_text(n as u64);
    push_str(&mut s, tail);
    s
}

/// The On Repeat tile that leads the library (the UI draws its cover).
pub fn on_repeat_card(count: usize) -> (r: BrowseItem)
    ensures
        r.kind@ == "playlist"@,
        r.id@ == ON_REPEAT_ID@,
        r.title@ == "On Repeat"@,
        r.subtitle matches Some(s) && s@ == nat_digits(count as nat) + " songs"@,
        r.thumbnail is None,
        r.duration is None,
        r.artist_runs@.len() == 0,
        !r.is_video,
        !r.explicit,
{
    BrowseItem {
        kind: "playlist",
        id: owned(ON_REPEAT_ID),
        title: owned("On Repeat"),
        subtitle: Some(count_songs(count, " songs")),
        thumbnail: None,
        duration: None,
        artist_runs: Vec::new(),
        is_video: false,
        explicit: false,
    }
}

/// The library grid: On Repeat first once it has anything in it (hidden while empty), then the
/// account's playlists.
pub fn library_items(playlists: Vec<BrowseItem>, on_repeat_count: usize) -> (r: Vec<BrowseItem>)
    ensures
        on_repeat_count == 0 ==> r@ == playlists@,
        on_repeat_count > 0 ==> (r@.len() == playlists@.len() + 1 && r@.skip(1) == playlists@
            && r@[0].id@ == ON_REPEAT_ID@ && r@[0].kind@ == "playlist"@
            && (r@[0].subtitle matches Some(s) && s@ == nat_digits(on_repeat_count as nat) + " songs"@)),
{
    let mut items = playlists;
    if on_repeat_count > 0 {
        items.insert(0, on_repeat_card(on_repeat_count));
        assert(items@.skip(1) =~= playlists@);
    }
    items
}

/// The On Repeat page: the most-played tracks, nothing to rename or delete, no YouTube order.
pub fn on_repeat_page(items: Vec<SongItem>) -> (r: PlaylistPage)
    ensures
        r.title matches Some(t) && t@ == "On Repeat"@,
        r.subtitle matches Some(s) && s@ == nat_digits(items@.len() as nat) + " songs you've played most this month"@,
        r.thumbnail is None,
        r.items@ == items@,
        r.continuation is None,
        !r.owned,
        r.sort_menu is None,
{
    let subtitle = count_songs(items.len(), " songs you've played most this month");
    PlaylistPage {
        title: Some(owned("On Repeat")),
        subtitle: Some(subtitle),
        thumbnail: None,
        items,
        continuation: None,
        owned: false,
        sort_menu: None,
    }
}

/// Where a playlist page comes from.
#[derive(Debug, Clone, PartialEq)]
pub enum PlaylistRequest {
    /// The local On Repeat list.
    OnRepeat,
    /// YouTube, in the order asked for (`None`: whatever order the account has).
    YouTube { id: String, sort: Option<(PlaylistSort, bool)> },
}

/// The playlist page to build for `id`: On Repeat locally, anything else from YouTube, in the
/// given order (ascending unless `desc`).
pub fn playlist_request(id: String, sort: Option<PlaylistSort>, desc: Option<bool>) -> (r: PlaylistRequest)
    ensures
        id@ == ON_REPEAT_ID@ ==> r is OnRepeat,
        id@ != ON_REPEAT_ID@ ==> (r matches PlaylistRequest::YouTube { id: i, sort: s } && i == id && s == (match sort {
            Some(o) => Some((o, match desc { Some(d) => d, None => false })),
            None => None,
        })),
{
    if str_eq(id.as_str(), ON_REPEAT_ID) {
        return PlaylistRequest::OnRepeat;
    }
    let sort = match sort {
        Some(o) => Some((o, match desc { Some(d) => d, None => false })),
        None => None,
    };
    PlaylistRequest::YouTube { id, sort }
}

/// Where an album page comes from.
#[derive(Debug, Clone, PartialEq)]
pub enum AlbumRoute {
    /// A local album, by its key.
    LocalAlbum(String),
    /// A local artist (same page shape), by name.
    LocalArtist(String),
    /// A YouTube album, by browseId.
    YouTube(String),
}

/// The album page to build for `id`, given the prefixes that mark local albums and artists.
pub fn album_route(id: &str, album_prefix: &str, artist_prefix: &str) -> (r: AlbumRoute)
    ensures
        is_prefix(album_prefix@, id@) ==> (r matches AlbumRoute::LocalAlbum(k) && k@ == id@.skip(album_prefix@.len() as int)),
        !is_prefix(album_prefix@, id@) && is_prefix(artist_prefix@, id@)
            ==> (r matches AlbumRoute::LocalArtist(n) && n@ == id@.skip(artist_prefix@.len() as int)),
        !is_prefix(album_prefix@, id@) && !is_prefix(artist_prefix@, id@) ==> (r matches AlbumRoute::YouTube(i) && i@ == id@),
{
    match strip_prefix(id, album_prefix) {
        Some(k) => {
            assert(k@ =~= id@.skip(album_prefix@.len() as int));
            return AlbumRoute::LocalAlbum(k);
        },
        None => {},
    }
    match strip_prefix(id, artist_prefix) {
        Some(n) => {
            assert(n@ =~= id@.skip(artist_prefix@.len() as int));
            AlbumRoute::LocalArtist(n)
        },
        None => AlbumRoute::YouTube(owned(id)),
    }
}

// --- the browser and fonts -------------------------------------------------------------------------

/// Only http(s) URLs open in the user's browser (never `file:` or `javascript:`).
pub open spec fn browser_url(url: Seq<char>) -> bool {
    is_prefix("https://"@, url) || is_prefix("http://"@, url)
}

/// Whether `url` may open in the browser.
pub fn is_browser_url(url: &str) -> (r: bool)
    ensures
        r == browser_url(url@),
{
    starts_with(url, "https://") || starts_with(url, "http://")
}

/// The test a URL passes before it opens in the browser.
pub fn browser_url_check(url: &str) -> (r: Result<(), String>)
    ensures
        r is Ok <==> browser_url(url@),
        r matches Err(m) ==> m@ == "only http(s) URLs can open in the browser"@,
{
    if !is_browser_url(url) {
        return Err(owned("only http(s) URLs can open in the browser"));
    }
    Ok(())
}

/// The extension `Path::extension` finds in a path (on its last component, after the last dot,
/// unless the dot is the component's first character).
pub uninterp spec fn path_extension_of(path: Seq<char>) -> Option<Seq<char>>;

/// `std::path::Path::new(path).extension()`, as a string (a `&str` path's extension always is
/// one). What it finds is named, not stated: that takes the path component rules.
#[verifier::external_body]
fn path_extension(path: &str) -> (r: Option<String>)
    ensures
        match r {
            Some(e) => path_extension_of(path@) == Some(e@),
            None => path_extension_of(path@) is None,
        },
{
    std::path::Path::new(path).extension().and_then(|e| e.to_str()).map(|e| e.to_string())
}

/// A font file's extension: `ttf`, `otf`, `woff` or `woff2`, in any case.
pub open spec fn font_extension(ext: Seq<char>) -> bool {
    let l = ascii_lower_seq(ext);
    l == "ttf"@ || l == "otf"@ || l == "woff"@ || l == "woff2"@
}

/// The verdict on a font path, given its extension (none counts as empty).
pub fn font_extension_check(ext: Option<String>, path: &str) -> (r: Result<(), String>)
    ensures
        r is Ok <==> font_extension(match ext { Some(e) => e@, None => Seq::empty() }),
        r matches Err(m) ==> m@ == "not a font file: "@ + path@,
{
    let e = match ext {
        Some(e) => e,
        None => String::new(),
    };
    let l = to_ascii_lowercase(e.as_str());
    if str_eq(l.as_str(), "ttf") || str_eq(l.as_str(), "otf") || str_eq(l.as_str(), "woff")
        || str_eq(l.as_str(), "woff2") {
        Ok(())
    } else {
        let mut m = owned("not a font file: ");
        push_str(&mut m, path);
        Err(m)
    }
}

/// Only a font file may be handed to the webview: the command is never a way to get a URL for
/// any path on the machine.
pub fn font_file_check(path: &str) -> (r: Result<(), String>)
    ensures
        r is Ok <==> font_extension(match path_extension_of(path@) { Some(e) => e, None => Seq::empty() }),
        r matches Err(m) ==> m@ == "not a font file: "@ + path@,
{
    font_extension_check(path_extension(path), path)
}

} // verus!
