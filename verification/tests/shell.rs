use yapel::{
    close_action, close_hides, exits_on_destroyed, lt_server_url, non_empty_setting, playback_state, setting_on,
    webkit_env, CloseAction, DEFAULT_LT_SERVER_URL,
};

#[test]
fn close_hides_unless_explicitly_disabled() {
    assert!(!close_hides(None)); // fresh install → quit
    assert!(close_hides(Some("true")));
    assert!(!close_hides(Some("garbage")));
    assert!(!close_hides(Some("false")));
}

#[test]
fn close_requests_by_window() {
    assert_eq!(close_action("main", Some("true")), CloseAction::Hide);
    assert_eq!(close_action("main", None), CloseAction::Close);
    assert_eq!(close_action("mini", Some("false")), CloseAction::ShowMain);
    assert_eq!(close_action("cipher", Some("true")), CloseAction::Close);
    assert!(exits_on_destroyed("main"));
    assert!(!exits_on_destroyed("mini"));
}

#[test]
fn stored_settings_at_startup() {
    assert_eq!(lt_server_url(None), DEFAULT_LT_SERVER_URL);
    assert_eq!(lt_server_url(Some(String::new())), DEFAULT_LT_SERVER_URL);
    assert_eq!(lt_server_url(Some("wss://x/ws".into())), "wss://x/ws");
    assert_eq!(non_empty_setting(Some(String::new())), None);
    assert_eq!(non_empty_setting(Some("c".into())), Some("c".to_string()));
    assert!(setting_on(Some("true")));
    assert!(!setting_on(Some("1")));
    assert!(!setting_on(None));
    assert_eq!(playback_state(true), "playing");
    assert_eq!(playback_state(false), "paused");
}

#[test]
fn renderer_workarounds() {
    assert_eq!(webkit_env(false, false, false, false, false), vec![("__NV_DISABLE_EXPLICIT_SYNC", "1")]);
    assert_eq!(webkit_env(true, false, true, false, false), Vec::<(&str, &str)>::new());
    assert_eq!(
        webkit_env(false, true, true, false, false),
        vec![("__NV_DISABLE_EXPLICIT_SYNC", "1"), ("WEBKIT_DISABLE_DMABUF_RENDERER", "1")]
    );
    assert_eq!(webkit_env(true, true, true, false, true), Vec::<(&str, &str)>::new());
    assert_eq!(webkit_env(true, true, true, true, false), Vec::<(&str, &str)>::new());
}
