use yapel::player::{
    friendly_error, header_fields, pitch_error, pitch_filter, pitch_target, quoted, user_agent, AudioProfile, Error,
    MpvChange, MpvFailure, PlaybackTracker, DIMISCO_LAVFI,
};

#[test]
fn paths_survive_mpvs_command_parser() {
    // The bug this exists for: a space used to end the argument.
    assert_eq!(quoted("/music/My music/a, b.mp3"), "\"/music/My music/a, b.mp3\"");
    // Only backslash and double quote mean anything inside the quotes.
    assert_eq!(quoted(r#"/m/say "hi".mp3"#), r#""/m/say \"hi\".mp3""#);
    assert_eq!(quoted(r"C:\Music\x.mp3"), r#""C:\\Music\\x.mp3""#);
    // A stream URL is unchanged apart from the wrapper.
    assert_eq!(quoted("https://x/y?a=1&b=2"), "\"https://x/y?a=1&b=2\"");
}

#[test]
fn profiles_read_back_from_their_names() {
    for p in [AudioProfile::Dry, AudioProfile::Dimisco] {
        assert_eq!(AudioProfile::parse(p.as_str()), p);
    }
    assert_eq!(AudioProfile::parse("  DiMiScO \n"), AudioProfile::Dimisco);
    assert_eq!(AudioProfile::parse("atmos"), AudioProfile::Dry);
    assert_eq!(AudioProfile::parse(""), AudioProfile::Dry);
}

#[test]
fn only_dimisco_has_a_spatial_filter() {
    assert_eq!(AudioProfile::Dry.lavfi(), None);
    let f = AudioProfile::Dimisco.lavfi().unwrap();
    assert_eq!(f, DIMISCO_LAVFI);
    assert!(f.contains("crossfeed"), "dimisco missing crossfeed: {f}");
    assert!(f.contains("alimiter"), "dimisco missing limiter: {f}");
}

#[test]
fn pitch_stays_within_an_octave() {
    assert_eq!(pitch_target(-40), -12);
    assert_eq!(pitch_target(-12), -12);
    assert_eq!(pitch_target(5), 5);
    assert_eq!(pitch_target(13), 12);
    assert_eq!(pitch_filter(), "rubberband");
}

#[test]
fn a_refused_pitch_chain_is_said_in_words() {
    let err = pitch_error(3, "Raw(-9)".into());
    assert_eq!(err, Error::NoPitchFilter);
    assert_eq!(err.message(), "Pitch shifting isn't available in this build");
    let reset = pitch_error(0, "Raw(-9)".into());
    assert_eq!(reset, Error::Mpv("Raw(-9)".into()));
    assert_eq!(reset.message(), "mpv: Raw(-9)");
}

#[test]
fn user_agent_goes_to_its_own_property() {
    let headers = vec![
        ("Cookie".to_string(), "a=b".to_string()),
        ("user-agent".to_string(), "lower".to_string()),
        ("X-Goog-Visitor-Id".to_string(), "v1".to_string()),
    ];
    assert_eq!(user_agent(&headers).as_deref(), Some("lower"));
    assert_eq!(header_fields(&headers), "Cookie: a=b,X-Goog-Visitor-Id: v1");
    let both = vec![
        ("user-agent".to_string(), "lower".to_string()),
        ("User-Agent".to_string(), "Upper".to_string()),
    ];
    assert_eq!(user_agent(&both).as_deref(), Some("Upper"));
    assert_eq!(header_fields(&both), "");
    assert_eq!(user_agent(&Vec::new()), None);
    let mixed = vec![("USER-AGENT".to_string(), "x".to_string()), ("Range".to_string(), "bytes=0-".to_string())];
    assert_eq!(header_fields(&mixed), "Range: bytes=0-");
}

#[test]
fn playing_is_reported_once_per_real_change() {
    let mut t = PlaybackTracker::new();
    assert!(!t.playing);
    // A file starts: idle-active flips, pause was false all along.
    let r = t.step(MpvChange::IdleActive(false));
    assert_eq!(r.playing, Some(true));
    assert!(!r.track_ended);
    // Position updates and a gapless advance report nothing.
    assert_eq!(t.step(MpvChange::Other).playing, None);
    let r = t.step(MpvChange::EndFile(0));
    assert!(r.track_ended);
    assert_eq!(r.playing, None);
    // A deliberate stop is not a finished track.
    assert!(!t.step(MpvChange::EndFile(2)).track_ended);
    // Pausing, then pausing again: one report.
    assert_eq!(t.step(MpvChange::Pause(true)).playing, Some(false));
    assert_eq!(t.step(MpvChange::Pause(true)).playing, None);
    // Unpausing while idle is still not playing.
    assert_eq!(t.step(MpvChange::IdleActive(true)).playing, None);
    assert_eq!(t.step(MpvChange::Pause(false)).playing, None);
    assert_eq!(t.step(MpvChange::IdleActive(false)).playing, Some(true));
}

#[test]
fn failed_tracks_are_worded_for_people() {
    assert_eq!(
        friendly_error(&MpvFailure::Raw(-13)),
        "Couldn't load this track — YouTube rejected the stream link"
    );
    assert_eq!(
        friendly_error(&MpvFailure::Loadfile(Box::new(MpvFailure::Raw(-16)))),
        "This stream contains no playable audio"
    );
    assert_eq!(friendly_error(&MpvFailure::Raw(-17)), "Unrecognized audio format");
    assert_eq!(friendly_error(&MpvFailure::Raw(-14)), "Couldn't start audio output");
    assert_eq!(friendly_error(&MpvFailure::Raw(-4)), "Playback failed (mpv error -4)");
    assert_eq!(friendly_error(&MpvFailure::Other("null pointer".into())), "Playback failed (null pointer)");
}
