//! The player's own decisions around mpv: desk profiles, how a path is quoted for mpv's command
//! parser, which headers go where, when playback counts as started or stopped, and what a failed
//! track or a refused pitch shift tells the user.
use vstd::prelude::*;

use crate::text::{
    ascii_lower_seq, chars_of, int_text, i64_text, owned, push_char, push_str, str_eq, to_ascii_lowercase, trim,
    trimmed,
};

verus! {

// --- desk profiles ---------------------------------------------------------------------------------

/// Mutually exclusive desk profiles. Dry is speakers (no spatial). Dimisco is a local
/// headphone/IEM spatial approximation — not Dolby Atmos.
#[derive(Debug, Clone, Copy, PartialEq, Eq, Structural)]
pub enum AudioProfile {
    Dry,
    Dimisco,
}

/// The name a profile is stored under.
pub open spec fn profile_name(p: AudioProfile) -> Seq<char> {
    match p {
        AudioProfile::Dry => "dry"@,
        AudioProfile::Dimisco => "dimisco"@,
    }
}

/// The profile a stored setting names: `dimisco` in any case and surrounded by any white space,
/// else Dry.
pub open spec fn profile_named(s: Seq<char>) -> AudioProfile {
    if ascii_lower_seq(trimmed(s)) == "dimisco"@ { AudioProfile::Dimisco } else { AudioProfile::Dry }
}

/// The Dimisco filter chain: mild extra stereo, crossfeed, and a limiter.
pub const DIMISCO_LAVFI: &'static str = "lavfi=[extrastereo=m=1.2:c=0,crossfeed=strength=0.35:range=0.55:slope=0.5:level_in=0.85:level_out=0.95,alimiter=limit=0.89:attack=5:release=50:asc=1:level=0:latency=1]";

impl AudioProfile {
    /// Reads a stored setting.
    pub fn parse(s: &str) -> (r: AudioProfile)
        ensures
            r == profile_named(s@),
    {
        let t = trim(s);
        let l = to_ascii_lowercase(t.as_str());
        if str_eq(l.as_str(), "dimisco") { AudioProfile::Dimisco } else { AudioProfile::Dry }
    }

    /// The name the profile is stored under.
    pub fn as_str(self) -> (r: &'static str)
        ensures
            r@ == profile_name(self),
    {
        match self {
            AudioProfile::Dry => "dry",
            AudioProfile::Dimisco => "dimisco",
        }
    }

    /// The profile's spatial filter, if it has one.
    pub fn lavfi(self) -> (r: Option<&'static str>)
        ensures
            match self {
                AudioProfile::Dry => r is None,
                AudioProfile::Dimisco => r matches Some(f) && f@ == DIMISCO_LAVFI@,
            },
    {
        match self {
            AudioProfile::Dry => None,
            AudioProfile::Dimisco => Some(DIMISCO_LAVFI),
        }
    }
}

/// A stored profile reads back as itself.
pub proof fn law_profile_round_trip(p: AudioProfile)
    ensures
        profile_named(profile_name(p)) == p,
{
    reveal_strlit("dry");
    reveal_strlit("dimisco");
    let s = profile_name(p);
    assert(trimmed(s) =~= s);
    assert(ascii_lower_seq(s) =~= s);
    if p is Dry {
        assert(s.len() != "dimisco"@.len());
    }
}

// --- quoting for mpv's command parser ---------------------------------------------------------------

/// One character as it goes inside mpv's double quotes: `\` and `"` escaped with a `\`.
pub open spec fn escape_char(c: char) -> Seq<char> {
    if c == '\\' { seq!['\\', '\\'] } else if c == '"' { seq!['\\', '"'] } else { seq![c] }
}

/// Every character escaped.
pub open spec fn escaped(s: Seq<char>) -> Seq<char>
    decreases s.len(),
{
    if s.len() == 0 { Seq::empty() } else { escape_char(s[0]) + escaped(s.drop_first()) }
}

/// An argument in double quotes, escaped, as mpv's command parser reads it back.
pub open spec fn quoted_of(s: Seq<char>) -> Seq<char> {
    seq!['"'] + escaped(s) + seq!['"']
}

/// mpv reading a double-quoted argument, starting after the opening quote: a `\` takes the next
/// character literally, an unescaped `"` ends the argument. The argument and what follows the
/// closing quote; `None` when the quote is never closed.
pub open spec fn read_quoted(s: Seq<char>) -> Option<(Seq<char>, Seq<char>)>
    decreases s.len(),
{
    if s.len() == 0 {
        None
    } else if s[0] == '"' {
        Some((Seq::empty(), s.drop_first()))
    } else if s[0] == '\\' && s.len() >= 2 {
        match read_quoted(s.skip(2)) {
            Some(p) => Some((seq![s[1]] + p.0, p.1)),
            None => None,
        }
    } else {
        match read_quoted(s.drop_first()) {
            Some(p) => Some((seq![s[0]] + p.0, p.1)),
            None => None,
        }
    }
}

proof fn lemma_escaped_append(s: Seq<char>, c: char)
    ensures
        escaped(s.push(c)) == escaped(s) + escape_char(c),
    decreases s.len(),
{
    if s.len() == 0 {
        assert(s.push(c).drop_first() =~= Seq::<char>::empty());
        assert(s.push(c)[0] == c);
        assert(escaped(s.push(c).drop_first()).len() == 0);
        assert(escape_char(c) + Seq::<char>::empty() =~= escape_char(c));
        assert(escaped(s.push(c)) =~= escape_char(c));
    } else {
        lemma_escaped_append(s.drop_first(), c);
        assert(s.push(c).drop_first() =~= s.drop_first().push(c));
        assert(escaped(s.push(c)) =~= escaped(s) + escape_char(c));
    }
}

/// Paths survive mpv's command parser: reading back what `quoted` wrote, followed by anything
/// else on the command line, gives exactly the argument, and the rest of the line starts right
/// after it — a space, comma or quote inside a path never ends the argument early.
pub proof fn law_quoted_reads_back(arg: Seq<char>, rest: Seq<char>)
    ensures
        read_quoted((quoted_of(arg) + rest).drop_first()) == Some((arg, rest)),
    decreases arg.len(),
{
    assert((quoted_of(arg) + rest).drop_first() =~= escaped(arg) + seq!['"'] + rest);
    if arg.len() == 0 {
        assert(escaped(arg) + seq!['"'] + rest =~= seq!['"'] + rest);
        assert((seq!['"'] + rest).drop_first() =~= rest);
    } else {
        law_quoted_reads_back(arg.drop_first(), rest);
        let tail = escaped(arg.drop_first()) + seq!['"'] + rest;
        assert((quoted_of(arg.drop_first()) + rest).drop_first() =~= tail);
        let s = escaped(arg) + seq!['"'] + rest;
        let c = arg[0];
        assert(s =~= escape_char(c) + tail);
        if c == '\\' || c == '"' {
            assert(s.skip(2) =~= tail);
            assert(s[1] == c);
        } else {
            assert(s.drop_first() =~= tail);
        }
        assert(seq![c] + arg.drop_first() =~= arg);
    }
}

/// A filename or URL in double quotes for mpv's command parser, which splits the command line
/// on white space: inside double quotes only `\` and `"` mean anything, so those are escaped.
pub fn quoted(arg: &str) -> (r: String)
    ensures
        r@ == quoted_of(arg@),
{
    let v = chars_of(arg);
    let mut r = String::new();
    push_char(&mut r, '"');
    let mut i: usize = 0;
    while i < v.len()
        invariant
            0 <= i <= v@.len(),
            v@ == arg@,
            r@ == seq!['"'] + escaped(v@.take(i as int)),
        decreases v@.len() - i,
    {
        let c = v[i];
        if c == '\\' {
            push_char(&mut r, '\\');
            push_char(&mut r, '\\');
        } else if c == '"' {
            push_char(&mut r, '\\');
            push_char(&mut r, '"');
        } else {
            push_char(&mut r, c);
        }
        proof {
            lemma_escaped_append(v@.take(i as int), c);
            assert(v@.take(i + 1) =~= v@.take(i as int).push(c));
        }
        assert(r@ =~= seq!['"'] + escaped(v@.take(i + 1)));
        i = i + 1;
    }
    push_char(&mut r, '"');
    assert(v@.take(v@.len() as int) =~= v@);
    r
}

// --- pitch -----------------------------------------------------------------------------------------

/// The pitch filter mpv is asked for.
pub fn pitch_filter() -> (r: &'static str)
    ensures
        r@ == "rubberband"@,
{
    "rubberband"
}

/// The pitch shift actually applied: one octave either way at most.
pub fn pitch_target(semitones: i32) -> (r: i32)
    ensures
        r == (if semitones < -12 { -12i32 } else if semitones > 12 { 12i32 } else { semitones }),
{
    if semitones < -12 { -12 } else if semitones > 12 { 12 } else { semitones }
}

/// What the player reports.
#[derive(Debug, Clone, PartialEq)]
pub enum Error {
    /// mpv refused something; its own words.
    Mpv(String),
    /// mpv refused a chain with the pitch filter: this libmpv has no librubberband.
    NoPitchFilter,
}

/// What the user reads for an error.
pub open spec fn error_text(e: Error) -> Seq<char> {
    match e {
        Error::Mpv(m) => "mpv: "@ + m@,
        Error::NoPitchFilter => "Pitch shifting isn't available in this build"@,
    }
}

impl Error {
    /// The message shown to the user.
    pub fn message(&self) -> (r: String)
        ensures
            r@ == error_text(*self),
    {
        match self {
            Error::Mpv(m) => {
                let mut s = owned("mpv: ");
                push_str(&mut s, m.as_str());
                s
            },
            Error::NoPitchFilter => owned("Pitch shifting isn't available in this build"),
        }
    }
}

/// The error for a filter chain mpv refused while setting pitch `wanted`: resetting to no shift
/// reports mpv's own error; any shift means the pitch filter is missing, said in words.
pub fn pitch_error(wanted: i32, mpv_message: String) -> (r: Error)
    ensures
        wanted == 0 ==> r == Error::Mpv(mpv_message),
        wanted != 0 ==> r is NoPitchFilter,
{
    if wanted == 0 { Error::Mpv(mpv_message) } else { Error::NoPitchFilter }
}

// --- request headers -------------------------------------------------------------------------------

pub open spec fn headers_view(hs: Seq<(String, String)>) -> Seq<(Seq<char>, Seq<char>)> {
    hs.map_values(|h: (String, String)| (h.0@, h.1@))
}

/// The value stored under `key`, first match.
pub open spec fn header_value(hs: Seq<(Seq<char>, Seq<char>)>, key: Seq<char>) -> Option<Seq<char>>
    decreases hs.len(),
{
    if hs.len() == 0 {
        None
    } else if hs[0].0 == key {
        Some(hs[0].1)
    } else {
        header_value(hs.drop_first(), key)
    }
}

/// The user agent among the headers, which mpv takes as its own property: `User-Agent`, else
/// `user-agent`.
pub open spec fn user_agent_of(hs: Seq<(Seq<char>, Seq<char>)>) -> Option<Seq<char>> {
    match header_value(hs, "User-Agent"@) {
        Some(v) => Some(v),
        None => header_value(hs, "user-agent"@),
    }
}

fn find_header(hs: &Vec<(String, String)>, key: &str) -> (r: Option<String>)
    ensures
        match r {
            Some(v) => header_value(headers_view(hs@), key@) == Some(v@),
            None => header_value(headers_view(hs@), key@) is None,
        },
{
    let ghost hv = headers_view(hs@);
    let mut i: usize = 0;
    assert(hv.skip(0) =~= hv);
    while i < hs.len()
        invariant
            0 <= i <= hs@.len(),
            hv == headers_view(hs@),
            header_value(hv, key@) == header_value(hv.skip(i as int), key@),
        decreases hs@.len() - i,
    {
        assert(hv.skip(i as int)[0] == hv[i as int]);
        assert(hv.skip(i as int).drop_first() =~= hv.skip(i + 1));
        if str_eq(hs[i].0.as_str(), key) {
            return Some(hs[i].1.clone());
        }
        i = i + 1;
    }
    None
}

/// The user agent to set, given the request headers (a map's entries, in the order it lists them).
pub fn user_agent(headers: &Vec<(String, String)>) -> (r: Option<String>)
    ensures
        match r {
            Some(v) => user_agent_of(headers_view(headers@)) == Some(v@),
            None => user_agent_of(headers_view(headers@)) is None,
        },
{
    match find_header(headers, "User-Agent") {
        Some(v) => Some(v),
        None => find_header(headers, "user-agent"),
    }
}

/// Whether a header is the user agent, in any case.
pub open spec fn is_user_agent_header(name: Seq<char>) -> bool {
    ascii_lower_seq(name) == "user-agent"@
}

/// `name: value` for every header but the user agent, joined by commas, in the order given.
pub open spec fn header_fields_of(hs: Seq<(Seq<char>, Seq<char>)>) -> Seq<char>
    decreases hs.len(),
{
    if hs.len() == 0 {
        Seq::empty()
    } else {
        let prev = header_fields_of(hs.drop_last());
        let h = hs.last();
        if is_user_agent_header(h.0) {
            prev
        } else if prev.len() == 0 && !has_field(hs.drop_last()) {
            h.0 + ": "@ + h.1
        } else {
            prev + ","@ + h.0 + ": "@ + h.1
        }
    }
}

/// Some header besides the user agent is present.
pub open spec fn has_field(hs: Seq<(Seq<char>, Seq<char>)>) -> bool {
    exists|i: int| 0 <= i < hs.len() && !is_user_agent_header(#[trigger] hs[i].0)
}

/// mpv's `http-header-fields`: every header but the user agent, as `name: value`, joined by
/// commas.
pub fn header_fields(headers: &Vec<(String, String)>) -> (r: String)
    ensures
        r@ == header_fields_of(headers_view(headers@)),
{
    let ghost hv = headers_view(headers@);
    let mut r = String::new();
    let mut any = false;
    let mut i: usize = 0;
    while i < headers.len()
        invariant
            0 <= i <= headers@.len(),
            hv == headers_view(headers@),
            r@ == header_fields_of(hv.take(i as int)),
            any == has_field(hv.take(i as int)),
        decreases headers@.len() - i,
    {
        let ghost prev = hv.take(i as int);
        assert(hv.take(i + 1).drop_last() =~= prev);
        assert(hv.take(i + 1).last() == hv[i as int]);
        let name = headers[i].0.as_str();
        let lower = to_ascii_lowercase(name);
        if !str_eq(lower.as_str(), "user-agent") {
            if any {
                push_str(&mut r, ",");
            }
            push_str(&mut r, name);
            push_str(&mut r, ": ");
            push_str(&mut r, headers[i].1.as_str());
            proof {
                if !any {
                    assert(header_fields_of(prev).len() == 0) by {
                        lemma_no_field_empty(prev);
                    }
                }
            }
            any = true;
            assert(hv[i as int].0 == name@);
            assert(!is_user_agent_header(hv[i as int].0));
            assert(hv.take(i + 1)[i as int] == hv[i as int]);
            assert(has_field(hv.take(i + 1)));
        } else {
            proof {
                assert forall|k: int| 0 <= k < i + 1 && !is_user_agent_header(#[trigger] hv.take(i + 1)[k].0)
                    implies has_field(prev) by {
                    assert(prev[k] == hv.take(i + 1)[k]);
                }
                if has_field(prev) {
                    let k = choose|k: int| 0 <= k < prev.len() && !is_user_agent_header(#[trigger] prev[k].0);
                    assert(hv.take(i + 1)[k] == prev[k]);
                }
            }
        }
        proof {
            if any && !has_field(prev) {
                assert(r@ =~= hv[i as int].0 + ": "@ + hv[i as int].1);
            }
        }
        i = i + 1;
    }
    assert(hv.take(headers@.len() as int) =~= hv);
    r
}

proof fn lemma_no_field_empty(hs: Seq<(Seq<char>, Seq<char>)>)
    requires
        !has_field(hs),
    ensures
        header_fields_of(hs).len() == 0,
    decreases hs.len(),
{
    if hs.len() > 0 {
        let prev = hs.drop_last();
        assert(!is_user_agent_header(hs.last().0) ==> has_field(hs)) by {
            assert(hs[hs.len() - 1] == hs.last());
        }
        assert forall|k: int| 0 <= k < prev.len() && !is_user_agent_header(#[trigger] prev[k].0) implies has_field(hs) by {
            assert(hs[k] == prev[k]);
        }
        lemma_no_field_empty(prev);
    }
}

// --- playback state --------------------------------------------------------------------------------

/// The mpv events the player follows for its playback state.
#[derive(Debug, Clone, PartialEq)]
pub enum MpvChange {
    /// `pause` changed.
    Pause(bool),
    /// `idle-active` changed.
    IdleActive(bool),
    /// A file ended, with mpv's end-file reason.
    EndFile(i32),
    /// Anything else (position, duration, other events).
    Other,
}

/// mpv's end-file reason for a track that played to its end.
pub const END_FILE_EOF: i32 = 0;

/// Playback state as mpv's events leave it: `pause` and `idle-active` as last reported, and
/// whether playback was last reported as playing.
#[derive(Debug, Clone, PartialEq)]
pub struct PlaybackTracker {
    pub paused: bool,
    pub idle: bool,
    pub playing: bool,
}

/// What one mpv event leads the player to report.
#[derive(Debug, Clone, PartialEq)]
pub struct Reported {
    /// A track finished normally: the queue advances.
    pub track_ended: bool,
    /// Playback started (`Some(true)`) or stopped (`Some(false)`); only on a real change.
    pub playing: Option<bool>,
}

/// The tracker after one event.
pub open spec fn stepped(t: PlaybackTracker, change: MpvChange) -> PlaybackTracker {
    let paused = match change { MpvChange::Pause(p) => p, _ => t.paused };
    let idle = match change { MpvChange::IdleActive(i) => i, _ => t.idle };
    PlaybackTracker { paused, idle, playing: !paused && !idle }
}

/// The tracker after a run of events, from mpv's initial values (not paused, idle, not playing).
pub open spec fn tracker_after(es: Seq<MpvChange>) -> PlaybackTracker
    decreases es.len(),
{
    if es.len() == 0 {
        PlaybackTracker { paused: false, idle: true, playing: false }
    } else {
        stepped(tracker_after(es.drop_last()), es.last())
    }
}

/// What the `k`th event of a run reports about playing: the new value when it changed.
pub open spec fn report_at(es: Seq<MpvChange>, k: int) -> Option<bool> {
    let before = tracker_after(es.take(k)).playing;
    let after = tracker_after(es.take(k + 1)).playing;
    if before != after { Some(after) } else { None }
}

impl PlaybackTracker {
    /// mpv reports observed properties at once, so the state starts as mpv's initial values:
    /// not paused, idle, hence not playing.
    pub fn new() -> (r: PlaybackTracker)
        ensures
            !r.paused,
            r.idle,
            !r.playing,
            r == tracker_after(Seq::empty()),
    {
        PlaybackTracker { paused: false, idle: true, playing: false }
    }

    /// Takes in one event. Playing means neither paused nor idle (`pause` alone stays `false`
    /// across a `loadfile`, so only `idle-active` tells that a track began); a change is reported
    /// once, when it happens, and a gapless advance (neither property touched) reports none.
    pub fn step(&mut self, change: MpvChange) -> (r: Reported)
        ensures
            final(self).paused == (match change { MpvChange::Pause(p) => p, _ => old(self).paused }),
            final(self).idle == (match change { MpvChange::IdleActive(i) => i, _ => old(self).idle }),
            final(self).playing == (!final(self).paused && !final(self).idle),
            r.track_ended == (change == MpvChange::EndFile(END_FILE_EOF)),
            r.playing == (if final(self).playing != old(self).playing { Some(final(self).playing) } else { None }),
            *final(self) == stepped(*old(self), change),
    {
        let mut ended = false;
        match change {
            MpvChange::Pause(p) => {
                self.paused = p;
            },
            MpvChange::IdleActive(i) => {
                self.idle = i;
            },
            MpvChange::EndFile(reason) => {
                ended = reason == END_FILE_EOF;
            },
            MpvChange::Other => {},
        }
        let now = !self.paused && !self.idle;
        if now != self.playing {
            self.playing = now;
            Reported { track_ended: ended, playing: Some(now) }
        } else {
            Reported { track_ended: ended, playing: None }
        }
    }
}

proof fn lemma_tracker_take_step(es: Seq<MpvChange>, m: int)
    requires
        0 <= m < es.len(),
    ensures
        tracker_after(es.take(m + 1)) == stepped(tracker_after(es.take(m)), es[m]),
{
    assert(es.take(m + 1).drop_last() =~= es.take(m));
    assert(es.take(m + 1).last() == es[m]);
}

/// With nothing reported for events `a` up to `b`, playing is as it was before event `a`.
proof fn lemma_quiet_run(es: Seq<MpvChange>, a: int, b: int)
    requires
        0 <= a <= b <= es.len(),
        forall|m: int| a <= m < b ==> #[trigger] report_at(es, m) is None,
    ensures
        tracker_after(es.take(b)).playing == tracker_after(es.take(a)).playing,
    decreases b - a,
{
    if b > a {
        lemma_quiet_run(es, a, b - 1);
        assert(report_at(es, b - 1) is None);
    }
}

/// Over any run of mpv events, playing is reported only when it changes: two reports with none
/// between them never say the same thing.
pub proof fn law_playing_reports_alternate(es: Seq<MpvChange>, j: int, k: int)
    requires
        0 <= j < k < es.len(),
        report_at(es, j) is Some,
        report_at(es, k) is Some,
        forall|m: int| j < m < k ==> #[trigger] report_at(es, m) is None,
    ensures
        report_at(es, j) != report_at(es, k),
{
    lemma_tracker_take_step(es, k);
    lemma_tracker_take_step(es, j);
    lemma_quiet_run(es, j + 1, k);
}

/// The player starts stopped, so the first report of a run is "playing"; and an event that
/// touches neither `pause` nor `idle-active` (a gapless advance, an end of file, a position
/// update) reports nothing.
pub proof fn law_playing_reports_start_and_quiet(es: Seq<MpvChange>, k: int)
    requires
        0 <= k < es.len(),
    ensures
        (report_at(es, k) is Some && forall|m: int| 0 <= m < k ==> #[trigger] report_at(es, m) is None)
            ==> report_at(es, k) == Some(true),
        !(es[k] is Pause) && !(es[k] is IdleActive) ==> report_at(es, k) is None,
{
    lemma_tracker_take_step(es, k);
    if report_at(es, k) is Some && forall|m: int| 0 <= m < k ==> #[trigger] report_at(es, m) is None {
        lemma_quiet_run(es, 0, k);
        assert(es.take(0) =~= Seq::<MpvChange>::empty());
    }
}

// --- failed tracks ---------------------------------------------------------------------------------

/// mpv's client API error codes the player words for the user.
pub const MPV_ERROR_LOADING_FAILED: i32 = -13;
pub const MPV_ERROR_AO_INIT_FAILED: i32 = -14;
pub const MPV_ERROR_NOTHING_TO_PLAY: i32 = -16;
pub const MPV_ERROR_UNKNOWN_FORMAT: i32 = -17;

/// A failure libmpv reported.
#[derive(Debug)]
pub enum MpvFailure {
    /// A `loadfile` failed with this inner error.
    Loadfile(Box<MpvFailure>),
    /// A raw mpv error code.
    Raw(i32),
    /// Any other failure, as libmpv words it.
    Other(String),
}

/// The message a user reads for a failed track.
pub open spec fn failure_text(e: MpvFailure) -> Seq<char>
    decreases e,
{
    match e {
        MpvFailure::Loadfile(inner) => failure_text(*inner),
        MpvFailure::Raw(code) => if code == MPV_ERROR_LOADING_FAILED {
            "Couldn't load this track — YouTube rejected the stream link"@
        } else if code == MPV_ERROR_NOTHING_TO_PLAY {
            "This stream contains no playable audio"@
        } else if code == MPV_ERROR_UNKNOWN_FORMAT {
            "Unrecognized audio format"@
        } else if code == MPV_ERROR_AO_INIT_FAILED {
            "Couldn't start audio output"@
        } else {
            "Playback failed (mpv error "@ + int_text(code as int) + ")"@
        },
        MpvFailure::Other(m) => "Playback failed ("@ + m@ + ")"@,
    }
}

/// What the user is told about a failed track: raw mpv codes ("Raw(-13)") mean nothing to users.
pub fn friendly_error(e: &MpvFailure) -> (r: String)
    ensures
        r@ == failure_text(*e),
    decreases e,
{
    match e {
        MpvFailure::Loadfile(inner) => friendly_error(inner),
        MpvFailure::Raw(code) => {
            let code = *code;
            if code == MPV_ERROR_LOADING_FAILED {
                owned("Couldn't load this track — YouTube rejected the stream link")
            } else if code == MPV_ERROR_NOTHING_TO_PLAY {
                owned("This stream contains no playable audio")
            } else if code == MPV_ERROR_UNKNOWN_FORMAT {
                owned("Unrecognized audio format")
            } else if code == MPV_ERROR_AO_INIT_FAILED {
                owned("Couldn't start audio output")
            } else {
                let mut s = owned("Playback failed (mpv error ");
                push_str(&mut s, i64_text(code as i64).as_str());
                push_str(&mut s, ")");
                s
            }
        },
        MpvFailure::Other(m) => {
            let mut s = owned("Playback failed (");
            push_str(&mut s, m.as_str());
            push_str(&mut s, ")");
            s
        },
    }
}

} // verus!
