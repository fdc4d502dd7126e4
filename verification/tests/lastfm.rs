use md5::{Digest, Md5};
use serde_json::Value;
use yapel::browse::SongItem;
use yapel::json::Json;
use yapel::lastfm::{
    auth_url, call_outcome, configured, connect_token, default_desktop, desktop_file_name, disconnect, exec_argv,
    exec_line, flatpak_app_id, now_playing_params, open_browser_plan, poll_action, poll_step, reply_error, scrobble_params,
    scrobbleable, session_of_reply, session_settings, shell_words, sign, signed_params, state_event, status_of,
    token_of_reply, ApiError, AuthGeneration, Launch, PollAction, PollStep, ScrobbleAction, ScrobbleEvent, Scrobbler, Track,
    AUTH_URL, MALFORMED_SESSION, NO_BROWSER,
};

fn to_json(v: &Value) -> Json {
    match v {
        Value::Null => Json::Null,
        Value::Bool(b) => Json::Bool(*b),
        Value::Number(n) => match n.as_i64() {
            Some(i) => Json::Int(i),
            None => Json::OtherNumber(n.to_string()),
        },
        Value::String(s) => Json::Str(s.clone()),
        Value::Array(a) => Json::Array(a.iter().map(to_json).collect()),
        Value::Object(o) => Json::Object(o.iter().map(|(k, v)| (k.clone(), to_json(v))).collect()),
    }
}

fn from_json(j: &Json) -> Value {
    match j {
        Json::Null => Value::Null,
        Json::Bool(b) => Value::Bool(*b),
        Json::Int(i) => Value::from(*i),
        Json::OtherNumber(s) => serde_json::from_str(s).unwrap(),
        Json::Str(s) => Value::String(s.clone()),
        Json::Array(a) => Value::Array(a.iter().map(from_json).collect()),
        Json::Object(o) => Value::Object(o.iter().map(|(k, v)| (k.clone(), from_json(v))).collect()),
    }
}

fn parse(text: &str) -> Json {
    to_json(&serde_json::from_str::<Value>(text).unwrap())
}

fn params(ps: &[(&str, &str)]) -> Vec<(String, String)> {
    ps.iter().map(|(k, v)| (k.to_string(), v.to_string())).collect()
}

#[test]
fn desktop_exec_line_splits_flatpak_zen() {
    let exec = "/usr/bin/flatpak run --command=launch-script.sh --file-forwarding app.zen_browser.zen @@u %u @@";
    let words = shell_words(&exec.replace("@@u %u @@", "@@u https://example.com @@"));
    assert_eq!(words[0], "/usr/bin/flatpak");
    assert!(words.contains(&"@@u".into()));
    assert!(words.contains(&"https://example.com".into()));
}

#[test]
fn exec_inserts_url_as_one_arg() {
    let exec = "/usr/bin/flatpak run --file-forwarding app.zen_browser.zen @@u %u @@";
    let parts = {
        let mut p = shell_words(exec);
        let mut out: Vec<String> = Vec::new();
        for x in p.drain(..) {
            if x == "%u" {
                out.push("https://ex.com/a b".into());
            } else {
                out.push(x);
            }
        }
        out
    };
    assert!(parts.iter().any(|p| p == "https://ex.com/a b"));
    assert!(!parts.iter().any(|p| p == "b"));
}

#[test]
fn api_sig_is_sorted_concat_md5() {
    let params = params(&[("method", "auth.getSession"), ("api_key", "abc"), ("token", "xyz")]);
    // Sorted: api_key abc, method auth.getSession, token xyz
    let expected = format!("{:x}", Md5::digest("api_keyabcmethodauth.getSessiontokenxyz".as_bytes()));
    assert_eq!(sign(&params, ""), expected);
}

#[test]
fn the_secret_goes_last_into_the_signature() {
    let ps = params(&[("b", "2"), ("a", "1")]);
    let expected = format!("{:x}", Md5::digest("a1b2s3cr3t".as_bytes()));
    assert_eq!(sign(&ps, "s3cr3t"), expected);
    // A known digest: MD5 of the empty string.
    assert_eq!(sign(&Vec::new(), ""), "d41d8cd98f00b204e9800998ecf8427e");
}

#[test]
fn signed_calls_carry_key_method_signature_and_format() {
    let ps = signed_params(params(&[("token", "xyz")]), "auth.getSession", "abc", "");
    let names: Vec<&str> = ps.iter().map(|p| p.0.as_str()).collect();
    assert_eq!(names, vec!["token", "api_key", "method", "api_sig", "format"]);
    let expected = format!("{:x}", Md5::digest("api_keyabcmethodauth.getSessiontokenxyz".as_bytes()));
    assert_eq!(ps[3].1, expected);
    assert_eq!(ps[4].1, "json");
}

#[test]
fn shell_words_honour_quotes() {
    assert_eq!(shell_words(r#"a "b c" 'd "e"' f"#), vec!["a", "b c", "d \"e\"", "f"]);
    assert_eq!(shell_words("  lead   trail  "), vec!["lead", "trail"]);
    assert_eq!(shell_words(r#""""#), Vec::<String>::new());
    assert_eq!(shell_words(r#"x"y z"#), vec!["xy z"]);
}

#[test]
fn exec_argv_puts_the_url_where_the_entry_says() {
    let url = "https://ex.com/a b";
    assert_eq!(
        exec_argv("/usr/bin/firefox %u", url),
        Some(vec!["/usr/bin/firefox".to_string(), url.to_string()])
    );
    assert_eq!(
        exec_argv("/usr/bin/flatpak run app.zen @@u %u @@", url),
        Some(vec!["/usr/bin/flatpak".into(), "run".into(), "app.zen".into(), "@@u".into(), url.into(), "@@".into()])
    );
    assert_eq!(
        exec_argv("flatpak run app.zen @@u @@", url),
        Some(vec!["flatpak".into(), "run".into(), "app.zen".into(), "@@u".into(), url.into(), "@@".into()])
    );
    assert_eq!(exec_argv("chromium %F --incognito", url), Some(vec!["chromium".into(), "--incognito".into(), url.into()]));
    assert_eq!(exec_argv("   ", url), None);
}

#[test]
fn desktop_entries_and_their_exec_lines() {
    assert_eq!(default_desktop("  zen.desktop\n").as_deref(), Some("zen.desktop"));
    assert_eq!(default_desktop(" \n"), None);
    assert_eq!(desktop_file_name("firefox"), "firefox.desktop");
    assert_eq!(desktop_file_name("firefox.desktop"), "firefox.desktop");
    let text = "[Desktop Entry]\r\nName=Zen\r\nExec=/usr/bin/zen %u\r\nExec=/second\n";
    assert_eq!(exec_line(text).as_deref(), Some("/usr/bin/zen %u"));
    assert_eq!(exec_line("[Desktop Entry]\nName=x\n"), None);
    assert_eq!(flatpak_app_id("app.zen_browser.zen.desktop").as_deref(), Some("app.zen_browser.zen"));
    assert_eq!(flatpak_app_id("app.x.desktop.desktop").as_deref(), Some("app.x"));
    assert_eq!(flatpak_app_id("firefox.desktop"), None);
}

fn launch(program: &str, args: &[&str], wait: bool) -> Launch {
    Launch { program: program.into(), args: args.iter().map(|a| a.to_string()).collect(), wait }
}

#[test]
fn the_browser_plan_tries_the_entry_first() {
    let url = "https://www.last.fm/api/auth/?x=1";
    let plan = open_browser_plan(Some("app.zen_browser.zen.desktop".into()), Some("/usr/bin/flatpak run app.zen_browser.zen @@u %u @@".into()), url);
    assert_eq!(plan[0], launch("/usr/bin/flatpak", &["run", "app.zen_browser.zen", "@@u", url, "@@"], false));
    assert_eq!(plan[1], launch("gtk-launch", &["app.zen_browser.zen.desktop", url], true));
    assert_eq!(
        plan[2],
        launch(
            "flatpak",
            &["run", "--branch=stable", "--arch=x86_64", "--command=launch-script.sh", "--file-forwarding",
              "app.zen_browser.zen", "@@u", url, "@@"],
            false
        )
    );
    assert_eq!(plan[3], launch("gio", &["open", url], false));
    assert_eq!(plan[4], launch("setsid", &["-f", "xdg-open", url], false));
    let bins: Vec<&str> = plan[5..].iter().map(|l| l.program.as_str()).collect();
    assert_eq!(bins, vec!["zen-browser", "firefox", "chromium", "google-chrome-stable"]);
}

#[test]
fn sign_in_pages_only_go_to_browsers_holding_the_session() {
    let plan = open_browser_plan(None, None, "https://accounts.google.com/AccountChooser");
    let programs: Vec<&str> = plan.iter().map(|l| l.program.as_str()).collect();
    assert_eq!(programs, vec!["gio", "setsid", "zen-browser", "firefox"]);
    assert!(NO_BROWSER.contains("xdg-open"));
}

#[test]
fn replies_with_an_error_are_failures() {
    let e = reply_error(&parse(r#"{ "error": 14, "message": "Unauthorized Token" }"#)).unwrap();
    assert_eq!(e, ApiError { code: Some(14), message: "Unauthorized Token".into() });
    assert!(e.retryable());
    let e = reply_error(&parse(r#"{ "error": 9 }"#)).unwrap();
    assert_eq!(e.message, "unknown last.fm error");
    assert!(!e.retryable());
    assert!(ApiError::transport("timeout".into()).retryable());
    assert!(reply_error(&parse(r#"{ "token": "t" }"#)).is_none());
    assert!(call_outcome(parse(r#"{ "token": "t" }"#)).is_ok());
    assert!(call_outcome(parse(r#"{ "error": 16, "message": "busy" }"#)).is_err());
}

#[test]
fn the_token_and_the_session() {
    assert_eq!(token_of_reply(&parse(r#"{ "token": "tok" }"#)), Ok("tok".into()));
    assert_eq!(token_of_reply(&parse(r#"{ }"#)), Err("Last.fm returned no token".into()));
    assert_eq!(
        session_of_reply(&parse(r#"{ "session": { "name": "rj", "key": "k3y", "subscriber": 0 } }"#)),
        Some(("rj".into(), "k3y".into()))
    );
    assert_eq!(session_of_reply(&parse(r#"{ "session": { "name": "rj" } }"#)), None);
    assert_eq!(
        connect_token(Err(ApiError { code: Some(26), message: "Suspended API key".into() })),
        Err("Last.fm: Suspended API key".into())
    );
    assert_eq!(connect_token(Ok(parse(r#"{ "token": "tok" }"#))), Ok("tok".into()));
}

#[test]
fn the_poll_keeps_going_only_while_approval_is_pending() {
    assert_eq!(
        poll_step(Ok(parse(r#"{ "session": { "name": "rj", "key": "k" } }"#))),
        PollStep::Connected { name: "rj".into(), key: "k".into() }
    );
    assert_eq!(poll_step(Ok(parse(r#"{ "session": {} }"#))), PollStep::Failed(MALFORMED_SESSION.into()));
    assert_eq!(poll_step(Err(ApiError { code: Some(14), message: "pending".into() })), PollStep::KeepPolling);
    assert_eq!(poll_step(Err(ApiError { code: Some(16), message: "busy".into() })), PollStep::KeepPolling);
    assert_eq!(poll_step(Err(ApiError::transport("reset".into()))), PollStep::KeepPolling);
    assert_eq!(
        poll_step(Err(ApiError { code: Some(4), message: "Invalid token".into() })),
        PollStep::Failed("Last.fm: Invalid token".into())
    );
}

#[test]
fn a_newer_connect_or_a_disconnect_supersedes_a_poll() {
    let mut g = AuthGeneration { generation: 0 };
    let mine = g.bump();
    assert!(g.is_current(mine));
    let d = disconnect(&mut g);
    assert!(!g.is_current(mine));
    assert_eq!(d.settings, params(&[("lastfm_session_key", ""), ("lastfm_username", "")]));
    assert_eq!(
        from_json(&d.event),
        serde_json::from_str::<Value>(r#"{ "connected": false, "username": null, "error": null }"#).unwrap()
    );
    let mut top = AuthGeneration { generation: u64::MAX };
    assert_eq!(top.bump(), 0);
}

#[test]
fn a_poll_whose_reply_lands_after_a_disconnect_does_nothing() {
    let mut g = AuthGeneration { generation: 7 };
    let mine = g.bump();
    let approved = || PollStep::Connected { name: "rj".into(), key: "sk".into() };
    match poll_action(&g, mine, approved()) {
        PollAction::Store { settings, key, event } => {
            assert_eq!(settings, params(&[("lastfm_session_key", "sk"), ("lastfm_username", "rj")]));
            assert_eq!(key, "sk");
            assert_eq!(
                from_json(&event),
                serde_json::from_str::<Value>(r#"{ "connected": true, "username": "rj", "error": null }"#).unwrap()
            );
        }
        other => panic!("expected a store, got {other:?}"),
    }
    assert!(matches!(poll_action(&g, mine, PollStep::KeepPolling), PollAction::Wait));
    match poll_action(&g, mine, PollStep::Failed("Last.fm: no".into())) {
        PollAction::Report(event) => assert_eq!(
            from_json(&event),
            serde_json::from_str::<Value>(r#"{ "connected": false, "username": null, "error": "Last.fm: no" }"#).unwrap()
        ),
        other => panic!("expected a report, got {other:?}"),
    }
    // The user disconnects while the getSession call is out: its approval is dropped.
    let _ = disconnect(&mut g);
    assert!(matches!(poll_action(&g, mine, approved()), PollAction::Stop));
    assert!(matches!(poll_action(&g, mine, PollStep::KeepPolling), PollAction::Stop));
}

#[test]
fn status_and_state_events() {
    assert_eq!(
        from_json(&status_of(Some("k".into()), Some("rj".into()))),
        serde_json::from_str::<Value>(r#"{ "connected": true, "username": "rj" }"#).unwrap()
    );
    assert_eq!(
        from_json(&status_of(Some("".into()), Some("".into()))),
        serde_json::from_str::<Value>(r#"{ "connected": false, "username": null }"#).unwrap()
    );
    assert_eq!(
        from_json(&state_event(true, Some("rj"), None)),
        serde_json::from_str::<Value>(r#"{ "connected": true, "username": "rj", "error": null }"#).unwrap()
    );
    assert_eq!(session_settings("rj", "k"), params(&[("lastfm_session_key", "k"), ("lastfm_username", "rj")]));
}

#[test]
fn connecting_needs_both_credentials() {
    let refused = configured("", "s").unwrap_err();
    assert!(refused.starts_with("Last.fm isn't configured in this build"));
    assert!(configured("k", "").is_err());
    assert_eq!(configured("k", "s"), Ok(()));
    assert_eq!(auth_url("abc", "tok"), format!("{AUTH_URL}?api_key=abc&token=tok"));
}

fn track(title: &str, artists: &str, album: Option<&str>) -> Track {
    Track { title: title.into(), artists: artists.into(), album: album.map(str::to_string) }
}

#[test]
fn untagged_local_files_are_not_scrobbled() {
    assert!(scrobbleable(&track("Grace", "Jeff Buckley", None)));
    assert!(!scrobbleable(&track("  ", "Jeff Buckley", None)));
    assert!(!scrobbleable(&track("song.flac", "Unknown artist", None)));
    assert!(!scrobbleable(&track("song.flac", " \t", None)));
}

#[test]
fn now_playing_and_scrobble_parameters() {
    let t = track("Grace", "Jeff Buckley", Some("Grace"));
    assert_eq!(
        now_playing_params(&t, "sk1"),
        Some(params(&[("artist", "Jeff Buckley"), ("track", "Grace"), ("sk", "sk1"), ("album", "Grace")]))
    );
    let no_album = track("Grace", "Jeff Buckley", Some(""));
    assert_eq!(
        scrobble_params(&no_album, 1700000000, "sk1", Some(323)),
        Some(params(&[("artist", "Jeff Buckley"), ("track", "Grace"), ("timestamp", "1700000000"), ("sk", "sk1"), ("duration", "323")]))
    );
    assert_eq!(now_playing_params(&track("x", "Unknown artist", None), "sk1"), None);
}

#[test]
fn a_track_scrobbles_once() {
    let item = SongItem { title: "Grace".into(), artists: "Jeff Buckley".into(), ..Default::default() };
    let mut s = Scrobbler::new(Some("sk".into()));
    let a = s.apply(ScrobbleEvent::Track { track: Track::of_song(&item), started_at: 100 });
    assert!(matches!(a, ScrobbleAction::NowPlaying(_)));
    assert_eq!(s.apply(ScrobbleEvent::Duration(Some(200))), ScrobbleAction::Nothing);
    match s.apply(ScrobbleEvent::Crossed) {
        ScrobbleAction::Scrobble(ps) => {
            assert!(ps.contains(&("timestamp".to_string(), "100".to_string())));
            assert!(ps.contains(&("duration".to_string(), "200".to_string())));
        }
        other => panic!("expected a scrobble, got {other:?}"),
    }
    // Latched: later ticks past the threshold send nothing.
    assert_eq!(s.apply(ScrobbleEvent::Crossed), ScrobbleAction::Nothing);
    // A new track resets the latch.
    s.apply(ScrobbleEvent::Track { track: Track::of_song(&item), started_at: 400 });
    assert!(matches!(s.apply(ScrobbleEvent::Crossed), ScrobbleAction::Scrobble(_)));
}

#[test]
fn no_session_no_calls() {
    let mut s = Scrobbler::new(None);
    let a = s.apply(ScrobbleEvent::Track { track: track("Grace", "Jeff Buckley", None), started_at: 1 });
    assert_eq!(a, ScrobbleAction::Nothing);
    assert_eq!(s.apply(ScrobbleEvent::Crossed), ScrobbleAction::Nothing);
    assert!(s.scrobbled, "the latch holds even when nothing was sent");
    s.apply(ScrobbleEvent::Session(Some("sk".into())));
    assert_eq!(s.session.as_deref(), Some("sk"));
}
