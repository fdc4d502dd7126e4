//! Last.fm: the signed API call's parameters and signature, what its replies mean, which tracks
//! are worth scrobbling, and the desktop launcher plumbing that opens the authorize page.
use vstd::prelude::*;

use md5::{Digest, Md5};

use crate::browse::SongItem;
use crate::json::{as_i64, as_str, get, get_member, get_member_opt, str_value, Json, JsonV};
use crate::text::{
    is_white_space, is_whitespace, lemma_name_lt_asymmetric, lemma_name_lt_total, lemma_name_lt_transitive, name_lt, owned,
    push_char, push_str, str_eq, str_lt, trim, trimmed,
};

verus! {

/// Last.fm error 14: "token has not been authorized" — the user hasn't clicked Allow yet.
pub const ERR_TOKEN_PENDING: i64 = 14;
/// Last.fm error 16: service temporarily unavailable — retryable, same as pending.
pub const ERR_TEMP_UNAVAILABLE: i64 = 16;
/// The API root every call goes to.
pub const API_ROOT: &'static str = "https://ws.audioscrobbler.com/2.0/";
/// The page where the user approves the app.
pub const AUTH_URL: &'static str = "https://www.last.fm/api/auth/";
/// The artist a local file without tags is filed under.
pub const UNKNOWN_ARTIST: &'static str = "Unknown artist";

// --- the signature -------------------------------------------------------------------------

/// The MD5 digest (16 bytes) of the UTF-8 of `s`.
pub uninterp spec fn md5_of(s: Seq<char>) -> Seq<u8>;

/// A lower-case hex digit.
pub open spec fn lower_hex_digit(d: u8) -> char {
    if d < 10 { (48 + d) as char } else { (87 + d) as char }
}

/// Bytes as lower-case hex, two digits each, high nibble first.
pub open spec fn lower_hex(b: Seq<u8>) -> Seq<char>
    decreases b.len(),
{
    if b.len() == 0 {
        Seq::empty()
    } else {
        seq![lower_hex_digit(b[0] / 16), lower_hex_digit(b[0] % 16)] + lower_hex(b.drop_first())
    }
}

/// `format!("{:x}", Md5::digest(s.as_bytes()))` from the `md-5` crate: the 16-byte MD5 digest of
/// the UTF-8 of `s`, written as 32 lower-case hex digits. The digest itself is named, not stated.
#[verifier::external_body]
pub(crate) fn md5_hex(s: &str) -> (r: String)
    ensures
        r@ == lower_hex(md5_of(s@)),
{
    format!("{:x}", Md5::digest(s.as_bytes()))
}

/// A parameter as values.
pub open spec fn param_view(p: (String, String)) -> (Seq<char>, Seq<char>) {
    (p.0@, p.1@)
}

pub open spec fn params_view(ps: Seq<(String, String)>) -> Seq<(Seq<char>, Seq<char>)> {
    ps.map_values(|p: (String, String)| param_view(p))
}

/// Where a stable insertion puts `x`: after every parameter whose name is not greater.
pub open spec fn insert_pos(s: Seq<(Seq<char>, Seq<char>)>, x: (Seq<char>, Seq<char>)) -> int
    decreases s.len(),
{
    if s.len() == 0 || !name_lt(x.0, s.last().0) {
        s.len() as int
    } else {
        insert_pos(s.drop_last(), x)
    }
}

/// The parameters sorted by name, stably: what `sort_by(|a, b| a.0.cmp(&b.0))` produces.
pub open spec fn sorted_by_name(s: Seq<(Seq<char>, Seq<char>)>) -> Seq<(Seq<char>, Seq<char>)>
    decreases s.len(),
{
    if s.len() == 0 {
        Seq::empty()
    } else {
        let rest = sorted_by_name(s.drop_last());
        let p = insert_pos(rest, s.last());
        rest.take(p).push(s.last()) + rest.skip(p)
    }
}

/// `name` then `value` for each parameter, in order.
pub open spec fn concat_params(s: Seq<(Seq<char>, Seq<char>)>) -> Seq<char>
    decreases s.len(),
{
    if s.len() == 0 { Seq::empty() } else { concat_params(s.drop_last()) + s.last().0 + s.last().1 }
}

/// The string the `api_sig` is the MD5 of: the parameters sorted by name, each as `namevalue`,
/// then the shared secret.
pub open spec fn signing_string(params: Seq<(Seq<char>, Seq<char>)>, secret: Seq<char>) -> Seq<char> {
    concat_params(sorted_by_name(params)) + secret
}

proof fn lemma_insert_pos_bounds(s: Seq<(Seq<char>, Seq<char>)>, x: (Seq<char>, Seq<char>))
    ensures
        0 <= insert_pos(s, x) <= s.len(),
    decreases s.len(),
{
    if s.len() != 0 && name_lt(x.0, s.last().0) {
        lemma_insert_pos_bounds(s.drop_last(), x);
    }
}

proof fn lemma_sorted_len(s: Seq<(Seq<char>, Seq<char>)>)
    ensures
        sorted_by_name(s).len() == s.len(),
    decreases s.len(),
{
    if s.len() != 0 {
        lemma_sorted_len(s.drop_last());
        lemma_insert_pos_bounds(sorted_by_name(s.drop_last()), s.last());
    }
}

/// Whether parameters are in name order: no later name comes before an earlier one.
pub open spec fn in_name_order(s: Seq<(Seq<char>, Seq<char>)>) -> bool {
    forall|i: int, j: int| 0 <= i < j < s.len() ==> !name_lt(#[trigger] s[j].0, #[trigger] s[i].0)
}

proof fn lemma_name_le_transitive(a: Seq<char>, b: Seq<char>, c: Seq<char>)
    requires
        !name_lt(b, a),
        !name_lt(c, b),
    ensures
        !name_lt(c, a),
{
    lemma_name_lt_total(a, b);
    lemma_name_lt_total(b, c);
    lemma_name_lt_transitive(a, b, c);
    lemma_name_lt_asymmetric(a, c);
    lemma_name_lt_transitive(c, a, b);
}

proof fn lemma_insert_pos_splits(s: Seq<(Seq<char>, Seq<char>)>, x: (Seq<char>, Seq<char>))
    ensures
        0 <= insert_pos(s, x) <= s.len(),
        forall|k: int| insert_pos(s, x) <= k < s.len() ==> name_lt(x.0, #[trigger] s[k].0),
        insert_pos(s, x) > 0 ==> !name_lt(x.0, s[insert_pos(s, x) - 1].0),
    decreases s.len(),
{
    if s.len() != 0 && name_lt(x.0, s.last().0) {
        lemma_insert_pos_splits(s.drop_last(), x);
        assert forall|k: int| insert_pos(s, x) <= k < s.len() implies name_lt(x.0, #[trigger] s[k].0) by {
            if k < s.len() - 1 {
                assert(s.drop_last()[k] == s[k]);
            }
        }
        if insert_pos(s, x) > 0 {
            assert(s.drop_last()[insert_pos(s, x) - 1] == s[insert_pos(s, x) - 1]);
        }
    }
}

proof fn lemma_insert_in_order(s: Seq<(Seq<char>, Seq<char>)>, x: (Seq<char>, Seq<char>))
    requires
        in_name_order(s),
    ensures
        in_name_order(s.take(insert_pos(s, x)).push(x) + s.skip(insert_pos(s, x))),
        (s.take(insert_pos(s, x)).push(x) + s.skip(insert_pos(s, x))).to_multiset() == s.to_multiset().insert(x),
{
    broadcast use vstd::seq_lib::group_to_multiset_ensures;
    lemma_insert_pos_splits(s, x);
    let p = insert_pos(s, x);
    let t = s.take(p).push(x) + s.skip(p);
    assert(t =~= s.insert(p, x));
    assert(t.len() == s.len() + 1);
    assert forall|i: int, j: int| 0 <= i < j < t.len() implies !name_lt(#[trigger] t[j].0, #[trigger] t[i].0) by {
        if j < p {
            assert(t[i] == s[i] && t[j] == s[j]);
        } else if j == p {
            assert(t[j] == x);
            assert(t[i] == s[i]);
            if i < p - 1 {
                lemma_name_le_transitive(s[i].0, s[p - 1].0, x.0);
            }
        } else if i == p {
            assert(t[i] == x);
            assert(t[j] == s[j - 1]);
            lemma_name_lt_asymmetric(x.0, s[j - 1].0);
        } else if i < p {
            assert(t[i] == s[i]);
            assert(t[j] == s[j - 1]);
        } else {
            assert(t[i] == s[i - 1]);
            assert(t[j] == s[j - 1]);
        }
    }
}

/// Signing sorts the parameters by name, as Last.fm asks: the sorted list holds exactly the
/// given parameters (a permutation), in name order.
pub proof fn law_sorted_by_name(s: Seq<(Seq<char>, Seq<char>)>)
    ensures
        sorted_by_name(s).to_multiset() == s.to_multiset(),
        forall|i: int, j: int| 0 <= i < j < sorted_by_name(s).len()
            ==> !name_lt(#[trigger] sorted_by_name(s)[j].0, #[trigger] sorted_by_name(s)[i].0),
    decreases s.len(),
{
    broadcast use vstd::seq_lib::group_to_multiset_ensures;
    if s.len() == 0 {
        assert(s =~= Seq::<(Seq<char>, Seq<char>)>::empty());
    } else {
        law_sorted_by_name(s.drop_last());
        let rest = sorted_by_name(s.drop_last());
        assert(in_name_order(rest));
        lemma_insert_in_order(rest, s.last());
        assert(s.drop_last().push(s.last()) =~= s);
        assert(in_name_order(sorted_by_name(s)));
    }
}

/// Inserts `x` into `sorted` where a stable sort puts it.
fn insert_by_name(sorted: &mut Vec<(String, String)>, x: (String, String))
    ensures
        params_view(final(sorted)@) == {
            let s = params_view(old(sorted)@);
            let p = insert_pos(s, param_view(x));
            s.take(p).push(param_view(x)) + s.skip(p)
        },
{
    let ghost s = params_view(sorted@);
    let mut j = sorted.len();
    assert(s.take(j as int) =~= s);
    while j > 0 && str_lt(x.0.as_str(), sorted[j - 1].0.as_str())
        invariant
            0 <= j <= sorted@.len(),
            s == params_view(sorted@),
            sorted@ == old(sorted)@,
            insert_pos(s, param_view(x)) == insert_pos(s.take(j as int), param_view(x)),
        decreases j,
    {
        assert(s.take(j as int).drop_last() =~= s.take(j - 1));
        assert(s.take(j as int).last() == param_view(sorted@[j - 1]));
        j = j - 1;
    }
    proof {
        if j == 0 {
            assert(s.take(0).len() == 0);
        } else {
            assert(s.take(j as int).last() == param_view(sorted@[j - 1]));
        }
        assert(insert_pos(s, param_view(x)) == j);
    }
    sorted.insert(j, x);
    assert(params_view(sorted@) =~= s.take(j as int).push(param_view(x)) + s.skip(j as int));
}

/// The parameters, copied, sorted by name (stably).
pub fn sort_params_by_name(params: &Vec<(String, String)>) -> (r: Vec<(String, String)>)
    ensures
        params_view(r@) == sorted_by_name(params_view(params@)),
{
    let ghost ps = params_view(params@);
    let mut sorted: Vec<(String, String)> = Vec::new();
    let mut i: usize = 0;
    assert(ps.take(0) =~= Seq::<(Seq<char>, Seq<char>)>::empty());
    while i < params.len()
        invariant
            0 <= i <= params@.len(),
            ps == params_view(params@),
            params_view(sorted@) == sorted_by_name(ps.take(i as int)),
        decreases params@.len() - i,
    {
        let x = (params[i].0.clone(), params[i].1.clone());
        assert(param_view(x) == ps[i as int]);
        insert_by_name(&mut sorted, x);
        assert(ps.take(i + 1).drop_last() =~= ps.take(i as int));
        assert(ps.take(i + 1).last() == ps[i as int]);
        i = i + 1;
    }
    assert(ps.take(params@.len() as int) =~= ps);
    sorted
}

/// The `api_sig`: md5 over the params sorted by name, concatenated as `namevalue`, plus the
/// shared secret.
pub fn sign(params: &Vec<(String, String)>, secret: &str) -> (r: String)
    ensures
        r@ == lower_hex(md5_of(signing_string(params_view(params@), secret@))),
{
    let sorted = sort_params_by_name(params);
    let ghost ss = params_view(sorted@);
    let mut s = String::new();
    let mut i: usize = 0;
    assert(ss.take(0) =~= Seq::<(Seq<char>, Seq<char>)>::empty());
    while i < sorted.len()
        invariant
            0 <= i <= sorted@.len(),
            ss == params_view(sorted@),
            s@ == concat_params(ss.take(i as int)),
        decreases sorted@.len() - i,
    {
        push_str(&mut s, sorted[i].0.as_str());
        push_str(&mut s, sorted[i].1.as_str());
        assert(ss.take(i + 1).drop_last() =~= ss.take(i as int));
        assert(ss.take(i + 1).last() == param_view(sorted@[i as int]));
        i = i + 1;
    }
    assert(ss.take(sorted@.len() as int) =~= ss);
    push_str(&mut s, secret);
    md5_hex(s.as_str())
}

/// A call's full parameter list: the method's own, then `api_key`, `method`, the `api_sig` over
/// all of those, and `format=json` (which the signature leaves out, per the docs).
pub fn signed_params(params: Vec<(String, String)>, method: &str, api_key: &str, secret: &str)
    -> (r: Vec<(String, String)>)
    ensures
        params_view(r@) == {
            let base = params_view(params@).push(("api_key"@, api_key@)).push(("method"@, method@));
            base.push(("api_sig"@, lower_hex(md5_of(signing_string(base, secret@))))).push(("format"@, "json"@))
        },
{
    let mut params = params;
    let ghost p0 = params_view(params@);
    params.push((owned("api_key"), owned(api_key)));
    assert(params_view(params@) =~= p0.push(("api_key"@, api_key@)));
    params.push((owned("method"), owned(method)));
    let ghost base = p0.push(("api_key"@, api_key@)).push(("method"@, method@));
    assert(params_view(params@) =~= base);
    let sig = sign(&params, secret);
    params.push((owned("api_sig"), sig));
    assert(params_view(params@) =~= base.push(("api_sig"@, lower_hex(md5_of(signing_string(base, secret@))))));
    params.push((owned("format"), owned("json")));
    assert(params_view(params@) =~= base.push(("api_sig"@, lower_hex(md5_of(signing_string(base, secret@)))))
        .push(("format"@, "json"@)));
    params
}

// --- replies -------------------------------------------------------------------------------

/// A failed call: Last.fm's numeric error code when the reply carried one, or a transport
/// failure (no code).
#[derive(Debug, Clone, PartialEq)]
pub struct ApiError {
    pub code: Option<i64>,
    pub message: String,
}

impl ApiError {
    /// A failure below the API (network, decoding): no code, just the message.
    pub fn transport(message: String) -> (r: ApiError)
        ensures
            r.code is None,
            r.message == message,
    {
        ApiError { code: None, message }
    }

    /// Worth polling again: not approved yet (14), service briefly down (16), or a transport
    /// failure.
    pub fn retryable(&self) -> (r: bool)
        ensures
            r == (self.code is None || self.code == Some(ERR_TOKEN_PENDING) || self.code == Some(ERR_TEMP_UNAVAILABLE)),
    {
        match self.code {
            None => true,
            Some(c) => c == ERR_TOKEN_PENDING || c == ERR_TEMP_UNAVAILABLE,
        }
    }
}

/// The error a reply body reports: its integer `error`, and its `message` or a stock one.
pub open spec fn reply_error_of(body: JsonV) -> Option<(int, Seq<char>)> {
    match get(body, "error"@) {
        Some(JsonV::Int(code)) => Some((code, match str_value(get(body, "message"@)) {
            Some(m) => m,
            None => "unknown last.fm error"@,
        })),
        _ => None,
    }
}

/// A reply that carries an `error` is a failure, whatever its HTTP status.
pub fn reply_error(body: &Json) -> (r: Option<ApiError>)
    ensures
        match r {
            Some(e) => e.code matches Some(c) && reply_error_of(body@) == Some((c as int, e.message@)),
            None => reply_error_of(body@) is None,
        },
{
    let code = match as_i64(get_member(body, "error")) {
        Some(c) => c,
        None => {
            return None;
        },
    };
    let message = match as_str(get_member(body, "message")) {
        Some(m) => m.clone(),
        None => owned("unknown last.fm error"),
    };
    Some(ApiError { code: Some(code), message })
}

/// The request token of an `auth.getToken` reply.
pub fn token_of_reply(body: &Json) -> (r: Result<String, String>)
    ensures
        match r {
            Ok(t) => str_value(get(body@, "token"@)) == Some(t@),
            Err(m) => str_value(get(body@, "token"@)) is None && m@ == "Last.fm returned no token"@,
        },
{
    match as_str(get_member(body, "token")) {
        Some(t) => Ok(t.clone()),
        None => Err(owned("Last.fm returned no token")),
    }
}

/// The session of an `auth.getSession` reply: `session.name` and `session.key`, both strings.
pub open spec fn session_of(body: JsonV) -> Option<(Seq<char>, Seq<char>)> {
    let session = get(body, "session"@);
    match (str_value(match session { Some(s) => get(s, "name"@), None => None }),
           str_value(match session { Some(s) => get(s, "key"@), None => None })) {
        (Some(name), Some(key)) => Some((name, key)),
        _ => None,
    }
}

/// The user's name and session key, once they approved the app.
pub fn session_of_reply(body: &Json) -> (r: Option<(String, String)>)
    ensures
        match r {
            Some(p) => session_of(body@) == Some((p.0@, p.1@)),
            None => session_of(body@) is None,
        },
{
    let session = get_member(body, "session");
    let name = as_str(get_member_opt(session, "name"));
    let key = as_str(get_member_opt(session, "key"));
    match (name, key) {
        (Some(n), Some(k)) => Some((n.clone(), k.clone())),
        _ => None,
    }
}

/// The page where the user approves the app for `token`.
pub fn auth_url(api_key: &str, token: &str) -> (r: String)
    ensures
        r@ == AUTH_URL@ + "?api_key="@ + api_key@ + "&token="@ + token@,
{
    let mut u = owned(AUTH_URL);
    push_str(&mut u, "?api_key=");
    push_str(&mut u, api_key);
    push_str(&mut u, "&token=");
    push_str(&mut u, token);
    u
}

/// The refusal when the build carries no API credentials.
pub const NOT_CONFIGURED: &'static str = "Last.fm isn't configured in this build — paste an API key into lastfm.rs (see https://www.last.fm/api/account/create).";

/// Connecting needs both halves of the build's API credentials.
pub fn configured(api_key: &str, secret: &str) -> (r: Result<(), String>)
    ensures
        r is Ok <==> (api_key@.len() > 0 && secret@.len() > 0),
        r matches Err(m) ==> m@ == NOT_CONFIGURED@,
{
    if api_key.is_empty() || secret.is_empty() {
        return Err(owned(NOT_CONFIGURED));
    }
    Ok(())
}

/// A stored setting, when it is set and non-empty.
pub open spec fn stored_setting(o: Option<String>) -> Option<Seq<char>> {
    match o {
        Some(v) => if v@.len() > 0 { Some(v@) } else { None },
        None => None,
    }
}

/// The status object for a stored session key and username.
pub open spec fn status_json(key: Option<Seq<char>>, username: Option<Seq<char>>) -> JsonV {
    JsonV::Object(seq![
        ("connected"@, JsonV::Bool(key is Some)),
        ("username"@, match username {
            Some(u) => JsonV::Str(u),
            None => JsonV::Null,
        }),
    ])
}

/// `{ "connected": …, "username": … }` from the persisted session: connected when a key is
/// stored, the username when one is.
pub fn status_of(session_key: Option<String>, username: Option<String>) -> (r: Json)
    ensures
        r@ == status_json(stored_setting(session_key), stored_setting(username)),
{
    let connected = match &session_key {
        Some(k) => !k.as_str().is_empty(),
        None => false,
    };
    let user = match username {
        Some(u) => if !u.as_str().is_empty() { Json::Str(u) } else { Json::Null },
        None => Json::Null,
    };
    let fields = vec![(owned("connected"), Json::Bool(connected)), (owned("username"), user)];
    let r = Json::Object(fields);
    proof {
        crate::json::lemma_fields_view(fields@);
        assert(crate::json::fields_view(fields@) =~= seq![
            ("connected"@, JsonV::Bool(stored_setting(session_key) is Some)),
            ("username"@, match stored_setting(username) {
                Some(u) => JsonV::Str(u),
                None => JsonV::Null,
            }),
        ]);
        assert(status_json(stored_setting(session_key), stored_setting(username))->Object_0
            =~= crate::json::fields_view(fields@));
    }
    r
}

// --- what gets scrobbled -----------------------------------------------------------------------

/// The track the scrobbler is following.
#[derive(Debug, Clone, PartialEq)]
pub struct Track {
    pub title: String,
    pub artists: String,
    pub album: Option<String>,
}

impl Track {
    /// What Last.fm needs of a queue entry.
    pub fn of_song(item: &SongItem) -> (r: Track)
        ensures
            r.title == item.title,
            r.artists == item.artists,
            r.album == item.album,
    {
        let album = match &item.album {
            Some(a) => Some(a.clone()),
            None => None,
        };
        Track { title: item.title.clone(), artists: item.artists.clone(), album }
    }
}

/// Worth sending to Last.fm: a title and an artist, and not the stand-in artist of an untagged
/// local file.
pub open spec fn scrobbleable_spec(title: Seq<char>, artists: Seq<char>) -> bool {
    trimmed(title).len() > 0 && trimmed(artists).len() > 0 && artists != UNKNOWN_ARTIST@
}

/// Whether a track is worth sending to Last.fm at all. An untagged local file has a filename for
/// a title and no artist behind it; submitting that writes "Unknown artist" into the user's
/// public profile, which is worse than not scrobbling it.
pub fn scrobbleable(t: &Track) -> (r: bool)
    ensures
        r == scrobbleable_spec(t.title@, t.artists@),
{
    !trim(t.title.as_str()).as_str().is_empty() && !trim(t.artists.as_str()).as_str().is_empty()
        && !str_eq(t.artists.as_str(), UNKNOWN_ARTIST)
}

/// The album parameter, when the track has a non-empty album.
pub open spec fn album_param(t: Track) -> Seq<(Seq<char>, Seq<char>)> {
    match t.album {
        Some(a) => if a@.len() > 0 { seq![("album"@, a@)] } else { Seq::empty() },
        None => Seq::empty(),
    }
}

/// `track.updateNowPlaying`'s parameters, or nothing for a track not worth sending.
pub fn now_playing_params(t: &Track, session_key: &str) -> (r: Option<Vec<(String, String)>>)
    ensures
        match r {
            Some(ps) => scrobbleable_spec(t.title@, t.artists@) && params_view(ps@) == seq![
                ("artist"@, t.artists@), ("track"@, t.title@), ("sk"@, session_key@)] + album_param(*t),
            None => !scrobbleable_spec(t.title@, t.artists@),
        },
{
    if !scrobbleable(t) {
        return None;
    }
    let mut ps: Vec<(String, String)> = Vec::new();
    ps.push((owned("artist"), t.artists.clone()));
    ps.push((owned("track"), t.title.clone()));
    ps.push((owned("sk"), owned(session_key)));
    match &t.album {
        Some(a) => if !a.as_str().is_empty() {
            ps.push((owned("album"), a.clone()));
        },
        None => {},
    }
    assert(params_view(ps@) =~= seq![("artist"@, t.artists@), ("track"@, t.title@), ("sk"@, session_key@)]
        + album_param(*t));
    Some(ps)
}

/// `track.scrobble`'s parameters, or nothing for a track not worth sending. `duration_secs` is the
/// whole-second length, when one is known.
pub fn scrobble_params(t: &Track, started_at: u64, session_key: &str, duration_secs: Option<i64>)
    -> (r: Option<Vec<(String, String)>>)
    ensures
        match r {
            Some(ps) => scrobbleable_spec(t.title@, t.artists@) && params_view(ps@) == seq![
                ("artist"@, t.artists@), ("track"@, t.title@),
                ("timestamp"@, crate::text::nat_digits(started_at as nat)), ("sk"@, session_key@)]
                + album_param(*t)
                + match duration_secs {
                    Some(d) => seq![("duration"@, crate::text::int_text(d as int))],
                    None => Seq::empty(),
                },
            None => !scrobbleable_spec(t.title@, t.artists@),
        },
{
    if !scrobbleable(t) {
        return None;
    }
    let mut ps: Vec<(String, String)> = Vec::new();
    ps.push((owned("artist"), t.artists.clone()));
    ps.push((owned("track"), t.title.clone()));
    ps.push((owned("timestamp"), crate::text::u64_text(started_at)));
    ps.push((owned("sk"), owned(session_key)));
    let ghost head = params_view(ps@);
    match &t.album {
        Some(a) => if !a.as_str().is_empty() {
            ps.push((owned("album"), a.clone()));
        },
        None => {},
    }
    let ghost mid = params_view(ps@);
    assert(mid =~= head + album_param(*t));
    match duration_secs {
        Some(d) => {
            ps.push((owned("duration"), crate::text::i64_text(d)));
        },
        None => {},
    }
    assert(params_view(ps@) =~= mid + match duration_secs {
        Some(d) => seq![("duration"@, crate::text::int_text(d as int))],
        None => Seq::empty(),
    });
    Some(ps)
}

// --- opening the browser: the desktop entry's command line ---------------------------------------

/// The words read so far, the word in progress, and the open quote, after reading `s` the way a
/// desktop `Exec=` line is split: white space separates words outside quotes, `'` or `"` opens a
/// quote that only the same character closes, and the quote characters themselves are dropped.
pub open spec fn words_state(s: Seq<char>) -> (Seq<Seq<char>>, Seq<char>, Option<char>)
    decreases s.len(),
{
    if s.len() == 0 {
        (Seq::empty(), Seq::empty(), None)
    } else {
        let prev = words_state(s.drop_last());
        let c = s.last();
        match prev.2 {
            None => if c == '\'' || c == '"' {
                (prev.0, prev.1, Some(c))
            } else if is_white_space(c) {
                if prev.1.len() > 0 { (prev.0.push(prev.1), Seq::empty(), None) } else { prev }
            } else {
                (prev.0, prev.1.push(c), None)
            },
            Some(q) => if c == q { (prev.0, prev.1, None) } else { (prev.0, prev.1.push(c), Some(q)) },
        }
    }
}

/// The words of `s` (an unclosed quote runs to the end).
pub open spec fn shell_words_of(s: Seq<char>) -> Seq<Seq<char>> {
    let st = words_state(s);
    if st.1.len() > 0 { st.0.push(st.1) } else { st.0 }
}

pub open spec fn strings_view(v: Seq<String>) -> Seq<Seq<char>> {
    v.map_values(|w: String| w@)
}

/// Splits a desktop entry's command line into words. No word is empty.
pub fn shell_words(s: &str) -> (r: Vec<String>)
    ensures
        strings_view(r@) == shell_words_of(s@),
        forall|i: int| 0 <= i < r@.len() ==> #[trigger] r@[i]@.len() > 0,
{
    let v = crate::text::chars_of(s);
    let mut out: Vec<String> = Vec::new();
    let mut cur = String::new();
    let mut quote: Option<char> = None;
    let mut i: usize = 0;
    while i < v.len()
        invariant
            0 <= i <= v@.len(),
            v@ == s@,
            strings_view(out@) == words_state(v@.take(i as int)).0,
            cur@ == words_state(v@.take(i as int)).1,
            quote == words_state(v@.take(i as int)).2,
            forall|k: int| 0 <= k < out@.len() ==> #[trigger] out@[k]@.len() > 0,
        decreases v@.len() - i,
    {
        assert(v@.take(i + 1).drop_last() =~= v@.take(i as int));
        let c = v[i];
        let ghost before = out@;
        match quote {
            None => {
                if c == '\'' || c == '"' {
                    quote = Some(c);
                } else if is_whitespace(c) {
                    if !cur.as_str().is_empty() {
                        let w = cur;
                        cur = String::new();
                        out.push(w);
                        assert(strings_view(out@) =~= strings_view(before).push(w@));
                    }
                } else {
                    push_char(&mut cur, c);
                }
            },
            Some(q) => {
                if c == q {
                    quote = None;
                } else {
                    push_char(&mut cur, c);
                }
            },
        }
        i = i + 1;
    }
    assert(v@.take(v@.len() as int) =~= v@);
    if !cur.as_str().is_empty() {
        let ghost before = out@;
        out.push(cur);
        assert(strings_view(out@) =~= strings_view(before).push(words_state(s@).1));
    }
    out
}

/// An unused desktop field code such as `%f` or `%i`: `%` and one more byte.
pub open spec fn is_field_code(p: Seq<char>) -> bool {
    p.len() == 2 && p[0] == '%' && (p[1] as int) < 128
}

/// The argument list built so far from the words, and whether the URL is in it yet.
pub open spec fn argv_state(parts: Seq<Seq<char>>, url: Seq<char>) -> (Seq<Seq<char>>, bool)
    decreases parts.len(),
{
    if parts.len() == 0 {
        (Seq::empty(), false)
    } else {
        let prev = argv_state(parts.drop_last(), url);
        let p = parts.last();
        if p == "%u"@ || p == "%U"@ {
            (prev.0.push(url), true)
        } else if p == "@@u"@ {
            (prev.0.push("@@u"@), prev.1)
        } else if p == "@@"@ {
            if !prev.1 { (prev.0.push(url).push("@@"@), true) } else { (prev.0.push("@@"@), true) }
        } else if is_field_code(p) {
            prev
        } else {
            (prev.0.push(p), prev.1)
        }
    }
}

/// The program and arguments an `Exec=` line runs for `url`: its words, with `%u`/`%U` replaced by
/// the URL as one argument (or the URL put before a flatpak `@@`, or at the end when the line has
/// no place for it), other field codes dropped. `None` for a line with no words.
pub open spec fn exec_argv_of(exec: Seq<char>, url: Seq<char>) -> Option<Seq<Seq<char>>> {
    let parts = shell_words_of(trimmed(exec));
    if parts.len() == 0 {
        None
    } else {
        let st = argv_state(parts, url);
        Some(if st.1 { st.0 } else { st.0.push(url) })
    }
}

proof fn lemma_argv_state_inserted(parts: Seq<Seq<char>>, url: Seq<char>)
    ensures
        argv_state(parts, url).1 ==> argv_state(parts, url).0.contains(url),
    decreases parts.len(),
{
    if parts.len() > 0 {
        let prev = argv_state(parts.drop_last(), url);
        lemma_argv_state_inserted(parts.drop_last(), url);
        let cur = argv_state(parts, url);
        if prev.1 {
            let i = choose|i: int| 0 <= i < prev.0.len() && prev.0[i] == url;
            assert(cur.0[i] == url);
        } else if cur.1 {
            let n = prev.0.len() as int;
            assert(cur.0[n] == url);
        }
    }
}

/// The URL is always one whole argument of what an `Exec=` line runs: it is never spliced into a
/// string that is split again.
pub proof fn law_exec_argv_carries_url(exec: Seq<char>, url: Seq<char>)
    ensures
        exec_argv_of(exec, url) matches Some(argv) ==> argv.contains(url),
{
    let parts = shell_words_of(trimmed(exec));
    if parts.len() > 0 {
        lemma_argv_state_inserted(parts, url);
        let st = argv_state(parts, url);
        if !st.1 {
            assert(st.0.push(url)[st.0.len() as int] == url);
        }
    }
}

/// What spawning a desktop entry's `Exec=` line for `url` runs: program first, then arguments.
pub fn exec_argv(exec: &str, url: &str) -> (r: Option<Vec<String>>)
    ensures
        match r {
            Some(argv) => exec_argv_of(exec@, url@) == Some(strings_view(argv@)) && argv@.len() > 0,
            None => exec_argv_of(exec@, url@) is None,
        },
{
    proof {
        law_exec_argv_carries_url(exec@, url@);
        reveal_strlit("%u");
        reveal_strlit("%U");
        reveal_strlit("@@u");
        reveal_strlit("@@");
    }
    let t = trim(exec);
    let parts = shell_words(t.as_str());
    if parts.len() == 0 {
        return None;
    }
    let ghost ps = strings_view(parts@);
    let mut out: Vec<String> = Vec::new();
    let mut inserted = false;
    let mut i: usize = 0;
    assert(ps.take(0) =~= Seq::<Seq<char>>::empty());
    while i < parts.len()
        invariant
            0 <= i <= parts@.len(),
            ps == strings_view(parts@),
            strings_view(out@) == argv_state(ps.take(i as int), url@).0,
            inserted == argv_state(ps.take(i as int), url@).1,
            "%u"@.len() == 2,
            "%U"@.len() == 2,
        decreases parts@.len() - i,
    {
        assert(ps.take(i + 1).drop_last() =~= ps.take(i as int));
        assert(ps.take(i + 1).last() == parts@[i as int]@);
        let p = parts[i].as_str();
        let ghost before = out@;
        if str_eq(p, "%u") || str_eq(p, "%U") {
            out.push(owned(url));
            inserted = true;
            assert(strings_view(out@) =~= strings_view(before).push(url@));
        } else if str_eq(p, "@@u") {
            out.push(owned("@@u"));
            assert(strings_view(out@) =~= strings_view(before).push("@@u"@));
        } else if str_eq(p, "@@") {
            if !inserted {
                out.push(owned(url));
                inserted = true;
            }
            out.push(owned("@@"));
            assert(strings_view(out@) =~= argv_state(ps.take(i + 1), url@).0);
        } else if field_code(p) {
        } else {
            out.push(owned(p));
            assert(strings_view(out@) =~= strings_view(before).push(p@));
        }
        i = i + 1;
    }
    assert(ps.take(parts@.len() as int) =~= ps);
    if !inserted {
        let ghost before = out@;
        out.push(owned(url));
        assert(strings_view(out@) =~= strings_view(before).push(url@));
    }
    Some(out)
}

/// Whether a word is an unused field code.
fn field_code(p: &str) -> (r: bool)
    ensures
        r == is_field_code(p@),
{
    let v = crate::text::chars_of(p);
    v.len() == 2 && v[0] == '%' && v[1] < '\u{80}'
}

// --- opening the browser: which launchers to try ---------------------------------------------------

/// What `open_browser` says when nothing it tried started.
pub const NO_BROWSER: &'static str =
    "Couldn't open the default browser (tried desktop Exec, gtk-launch, flatpak, gio, xdg-open)";

/// The default browser's desktop entry, from what `xdg-settings get default-web-browser` printed:
/// the output trimmed, when anything is left.
pub fn default_desktop(output: &str) -> (r: Option<String>)
    ensures
        match r {
            Some(d) => d@ == trimmed(output@) && d@.len() > 0,
            None => trimmed(output@).len() == 0,
        },
{
    let t = trim(output);
    if t.as_str().is_empty() { None } else { Some(t) }
}

/// The file name of a desktop entry: the id with `.desktop` added unless it has it.
pub fn desktop_file_name(desktop: &str) -> (r: String)
    ensures
        r@ == if crate::text::is_suffix(".desktop"@, desktop@) { desktop@ } else { desktop@ + ".desktop"@ },
{
    let mut name = owned(desktop);
    if !crate::text::ends_with(desktop, ".desktop") {
        push_str(&mut name, ".desktop");
    }
    name
}

/// The command of the first `Exec=` line.
pub open spec fn first_exec(lines: Seq<Seq<char>>) -> Option<Seq<char>>
    decreases lines.len(),
{
    if lines.len() == 0 {
        None
    } else if crate::text::is_prefix("Exec="@, lines[0]) {
        Some(lines[0].skip(5))
    } else {
        first_exec(lines.drop_first())
    }
}

/// The `Exec=` command of a desktop entry's text.
pub fn exec_line(text: &str) -> (r: Option<String>)
    ensures
        match r {
            Some(e) => first_exec(crate::text::lines_of(text@)) == Some(e@),
            None => first_exec(crate::text::lines_of(text@)) is None,
        },
{
    proof {
        reveal_strlit("Exec=");
    }
    let ls = crate::text::lines(text);
    let ghost lv = ls@.map_values(|l: String| l@);
    let mut i: usize = 0;
    assert(lv.skip(0) =~= lv);
    while i < ls.len()
        invariant
            0 <= i <= ls@.len(),
            lv == ls@.map_values(|l: String| l@),
            lv == crate::text::lines_of(text@),
            first_exec(lv) == first_exec(lv.skip(i as int)),
            "Exec="@.len() == 5,
        decreases ls@.len() - i,
    {
        assert(lv.skip(i as int)[0] == ls@[i as int]@);
        assert(lv.skip(i as int).drop_first() =~= lv.skip(i + 1));
        match crate::text::strip_prefix(ls[i].as_str(), "Exec=") {
            Some(rest) => {
                assert(rest@ =~= ls@[i as int]@.skip(5));
                return Some(rest);
            },
            None => {},
        }
        i = i + 1;
    }
    None
}

/// `s` with every trailing `.desktop` removed (`trim_end_matches(".desktop")`).
pub open spec fn without_desktop_suffix(s: Seq<char>) -> Seq<char>
    decreases s.len(),
{
    if s.len() >= 8 && crate::text::is_suffix(".desktop"@, s) && ".desktop"@.len() == 8 {
        without_desktop_suffix(s.take(s.len() - 8))
    } else {
        s
    }
}

/// The Flatpak application id behind a desktop entry (`app.…` once `.desktop` is off).
pub fn flatpak_app_id(desktop: &str) -> (r: Option<String>)
    ensures
        match r {
            Some(id) => id@ == without_desktop_suffix(desktop@) && crate::text::is_prefix("app."@, id@),
            None => !crate::text::is_prefix("app."@, without_desktop_suffix(desktop@)),
        },
{
    proof {
        reveal_strlit(".desktop");
    }
    let v = crate::text::chars_of(desktop);
    let mut n = v.len();
    let mut cur = owned(desktop);
    assert(v@.take(n as int) =~= v@);
    while n >= 8 && crate::text::ends_with(cur.as_str(), ".desktop")
        invariant
            0 <= n <= v@.len(),
            v@ == desktop@,
            cur@ == v@.take(n as int),
            ".desktop"@.len() == 8,
            without_desktop_suffix(desktop@) == without_desktop_suffix(cur@),
        decreases n,
    {
        n = n - 8;
        cur = crate::text::string_of(&v, 0, n);
        assert(v@.take(n + 8).take(n as int) =~= v@.take(n as int));
    }
    if crate::text::starts_with(cur.as_str(), "app.") { Some(cur) } else { None }
}

/// One launcher to try: the program, its arguments, and whether to wait for its exit status
/// (`gtk-launch` can exit 0 without opening anything, so its status is what counts) rather than
/// only for it to start.
#[derive(Debug, Clone, PartialEq)]
pub struct Launch {
    pub program: String,
    pub args: Vec<String>,
    pub wait: bool,
}

pub open spec fn launch_view(l: Launch) -> LaunchV {
    (l.program@, strings_view(l.args@), l.wait)
}

pub open spec fn launches_view(ls: Seq<Launch>) -> Seq<LaunchV> {
    ls.map_values(|l: Launch| launch_view(l))
}

/// Whether `url` is a sign-in page, which only the browsers holding the user's Google session
/// should get.
pub open spec fn is_google_url(url: Seq<char>) -> bool {
    crate::text::occurs_in("accounts.google.com"@, url) || crate::text::occurs_in("music.youtube.com"@, url)
}

/// The browsers tried last, by binary name.
pub open spec fn fallback_browsers(url: Seq<char>) -> Seq<Seq<char>> {
    if is_google_url(url) {
        seq!["zen-browser"@, "firefox"@]
    } else {
        seq!["zen-browser"@, "firefox"@, "chromium"@, "google-chrome-stable"@]
    }
}

/// A launcher as values: program, arguments, whether to wait for its exit status.
pub type LaunchV = (Seq<char>, Seq<Seq<char>>, bool);

/// The default browser's own command line, when its entry has one with words in it.
pub open spec fn exec_launch(exec: Option<Seq<char>>, url: Seq<char>) -> Seq<LaunchV> {
    match exec {
        Some(e) => match exec_argv_of(e, url) {
            Some(argv) => seq![(argv[0], argv.drop_first(), false)],
            None => Seq::empty(),
        },
        None => Seq::empty(),
    }
}

/// `flatpak run` for a browser installed as a Flatpak (its entry names an `app.…` id).
pub open spec fn flatpak_launch(desktop: Seq<char>, url: Seq<char>) -> Seq<LaunchV> {
    let id = without_desktop_suffix(desktop);
    if crate::text::is_prefix("app."@, id) {
        seq![("flatpak"@, seq!["run"@, "--branch=stable"@, "--arch=x86_64"@,
            "--command=launch-script.sh"@, "--file-forwarding"@, id, "@@u"@, url, "@@"@], false)]
    } else {
        Seq::empty()
    }
}

/// The launchers that go through the default browser's desktop entry.
pub open spec fn entry_launches(desktop: Option<Seq<char>>, exec: Option<Seq<char>>, url: Seq<char>) -> Seq<LaunchV> {
    match desktop {
        Some(d) => exec_launch(exec, url) + seq![("gtk-launch"@, seq![d, url], true)] + flatpak_launch(d, url),
        None => Seq::empty(),
    }
}

/// The launchers that need no desktop entry: `gio open`, `xdg-open`, and browsers by name.
pub open spec fn generic_launches(url: Seq<char>) -> Seq<LaunchV> {
    seq![("gio"@, seq!["open"@, url], false), ("setsid"@, seq!["-f"@, "xdg-open"@, url], false)]
        + fallback_browsers(url).map_values(|b: Seq<char>| (b, seq!["--new-tab"@, url], false))
}

/// Launchers in the order to try them, stopping at the first that works, for opening `url` on
/// Linux: the default browser's own `Exec=` command, `gtk-launch` on its entry, `flatpak run` for
/// a Flatpak browser, then `gio open`, `xdg-open`, and known browsers by name.
pub open spec fn launch_plan(desktop: Option<Seq<char>>, exec: Option<Seq<char>>, url: Seq<char>) -> Seq<LaunchV> {
    entry_launches(desktop, exec, url) + generic_launches(url)
}

/// An optional string as a value.
pub open spec fn opt_string_view(o: Option<String>) -> Option<Seq<char>> {
    match o {
        Some(s) => Some(s@),
        None => None,
    }
}

/// A launcher running `program` on the given arguments.
fn launch(program: &str, args: &[&str], wait: bool) -> (r: Launch)
    ensures
        launch_view(r) == (program@, args@.map_values(|a: &str| a@), wait),
{
    let mut v: Vec<String> = Vec::new();
    let mut i: usize = 0;
    while i < args.len()
        invariant
            0 <= i <= args@.len(),
            strings_view(v@) == args@.take(i as int).map_values(|a: &str| a@),
        decreases args@.len() - i,
    {
        let ghost before = v@;
        v.push(owned(args[i]));
        assert(strings_view(v@) =~= strings_view(before).push(args@[i as int]@));
        assert(args@.take(i + 1).map_values(|a: &str| a@) =~= args@.take(i as int).map_values(|a: &str| a@).push(args@[i as int]@));
        i = i + 1;
    }
    assert(args@.take(args@.len() as int) =~= args@);
    Launch { program: owned(program), args: v, wait }
}

/// The launchers to try for opening `url`, given the default browser's desktop entry and the
/// `Exec=` command read from it.
pub fn open_browser_plan(desktop: Option<String>, exec: Option<String>, url: &str) -> (r: Vec<Launch>)
    ensures
        launches_view(r@) == launch_plan(opt_string_view(desktop), opt_string_view(exec), url@),
{
    let mut plan: Vec<Launch> = Vec::new();
    match desktop {
        Some(d) => {
            match exec {
                Some(e) => match exec_argv(e.as_str(), url) {
                    Some(argv) => {
                        let mut argv = argv;
                        let ghost av = strings_view(argv@);
                        let program = argv.remove(0);
                        assert(strings_view(argv@) =~= av.drop_first());
                        plan.push(Launch { program, args: argv, wait: false });
                        assert(launches_view(plan@) =~= exec_launch(opt_string_view(exec), url@));
                    },
                    None => {},
                },
                None => {},
            }
            let ghost own = launches_view(plan@);
            assert(own =~= exec_launch(opt_string_view(exec), url@));
            let gtk = launch("gtk-launch", &[d.as_str(), url], true);
            assert(launch_view(gtk).1 =~= seq![d@, url@]);
            plan.push(gtk);
            let ghost with_gtk = launches_view(plan@);
            assert(with_gtk =~= own.push(("gtk-launch"@, seq![d@, url@], true)));
            match flatpak_app_id(d.as_str()) {
                Some(id) => {
                    let fl = launch("flatpak", &["run", "--branch=stable", "--arch=x86_64",
                        "--command=launch-script.sh", "--file-forwarding", id.as_str(), "@@u", url, "@@"], false);
                    assert(launch_view(fl).1 =~= seq!["run"@, "--branch=stable"@, "--arch=x86_64"@,
                        "--command=launch-script.sh"@, "--file-forwarding"@, id@, "@@u"@, url@, "@@"@]);
                    plan.push(fl);
                },
                None => {},
            }
            assert(launches_view(plan@) =~= own + seq![("gtk-launch"@, seq![d@, url@], true)]
                + (if crate::text::is_prefix("app."@, without_desktop_suffix(d@)) {
                    seq![("flatpak"@, seq!["run"@, "--branch=stable"@, "--arch=x86_64"@,
                        "--command=launch-script.sh"@, "--file-forwarding"@, without_desktop_suffix(d@), "@@u"@,
                        url@, "@@"@], false)]
                } else {
                    Seq::empty()
                }));
            assert(launches_view(plan@) =~= entry_launches(opt_string_view(desktop), opt_string_view(exec), url@));
        },
        None => {},
    }
    let ghost head = launches_view(plan@);
    assert(head =~= entry_launches(opt_string_view(desktop), opt_string_view(exec), url@));
    let gio = launch("gio", &["open", url], false);
    assert(launch_view(gio).1 =~= seq!["open"@, url@]);
    plan.push(gio);
    let xdg = launch("setsid", &["-f", "xdg-open", url], false);
    assert(launch_view(xdg).1 =~= seq!["-f"@, "xdg-open"@, url@]);
    plan.push(xdg);
    assert(launches_view(plan@) =~= head + seq![("gio"@, seq!["open"@, url@], false),
        ("setsid"@, seq!["-f"@, "xdg-open"@, url@], false)]);
    let google = crate::text::contains(url, "accounts.google.com") || crate::text::contains(url, "music.youtube.com");
    let bins: Vec<&str> = if google {
        vec!["zen-browser", "firefox"]
    } else {
        vec!["zen-browser", "firefox", "chromium", "google-chrome-stable"]
    };
    let ghost fixed = launches_view(plan@);
    let ghost fb = fallback_browsers(url@).map_values(|b: Seq<char>| (b, seq!["--new-tab"@, url@], false));
    let mut k: usize = 0;
    while k < bins.len()
        invariant
            0 <= k <= bins@.len(),
            bins@.len() == fallback_browsers(url@).len(),
            forall|j: int| 0 <= j < bins@.len() ==> #[trigger] bins@[j]@ == fallback_browsers(url@)[j],
            fb == fallback_browsers(url@).map_values(|b: Seq<char>| (b, seq!["--new-tab"@, url@], false)),
            launches_view(plan@) == fixed + fb.take(k as int),
        decreases bins@.len() - k,
    {
        let ghost before = launches_view(plan@);
        let b = launch(bins[k], &["--new-tab", url], false);
        assert(launch_view(b).1 =~= seq!["--new-tab"@, url@]);
        plan.push(b);
        assert(launches_view(plan@) =~= before.push(fb[k as int]));
        assert(fb.take(k + 1) =~= fb.take(k as int).push(fb[k as int]));
        k = k + 1;
    }
    assert(fb.take(bins@.len() as int) =~= fb);
    assert(launches_view(plan@) =~= head + generic_launches(url@));
    plan
}

// --- the scrobbler -------------------------------------------------------------------------------

/// What the scrobbler hears about.
#[derive(Debug, Clone, PartialEq)]
pub enum ScrobbleEvent {
    /// A new track started at `started_at` (epoch seconds).
    Track { track: Track, started_at: u64 },
    /// The player reported the track's length: whole seconds, or `None` when it is not positive.
    Duration(Option<i64>),
    /// The position passed Last.fm's threshold (half the track or four minutes).
    Crossed,
    /// The session key was set (connect) or cleared (disconnect).
    Session(Option<String>),
}

/// What the scrobbler asks to be sent.
#[derive(Debug, Clone, PartialEq)]
pub enum ScrobbleAction {
    Nothing,
    /// `track.updateNowPlaying` with these parameters.
    NowPlaying(Vec<(String, String)>),
    /// `track.scrobble` with these parameters.
    Scrobble(Vec<(String, String)>),
}

/// The scrobbler's state: the session, the current track, when it started, its whole-second
/// length when known, and whether it has been scrobbled (latched, even when sending failed).
#[derive(Debug, Clone, PartialEq)]
pub struct Scrobbler {
    pub session: Option<String>,
    pub track: Option<Track>,
    pub started_at: u64,
    pub duration_secs: Option<i64>,
    pub scrobbled: bool,
}

/// The parameters `now_playing_params` gives, when there is a session and a track worth sending.
pub open spec fn now_playing_of(session: Option<String>, track: Option<Track>) -> Option<Seq<(Seq<char>, Seq<char>)>> {
    match (session, track) {
        (Some(sk), Some(t)) => if scrobbleable_spec(t.title@, t.artists@) {
            Some(seq![("artist"@, t.artists@), ("track"@, t.title@), ("sk"@, sk@)] + album_param(t))
        } else {
            None
        },
        _ => None,
    }
}

/// Announcing a track names it as it is: with a session, a track with a title and a real artist
/// is announced with its artists as `artist`, its title as `track` and the session key as `sk`;
/// one without a title or artist, or filed under the untagged-file stand-in, is not announced;
/// nothing is announced without a session. A scrobble of the same track is sent exactly when the
/// announcement is, and names the same artist and track.
pub proof fn law_now_playing_names_the_track(sk: String, t: Track, started_at: u64, duration_secs: Option<i64>)
    ensures
        now_playing_of(Some(sk), Some(t)) is Some
            <==> (trimmed(t.title@).len() > 0 && trimmed(t.artists@).len() > 0 && t.artists@ != UNKNOWN_ARTIST@),
        now_playing_of(Some(sk), Some(t)) matches Some(ps) ==> {
            &&& ps.len() >= 3
            &&& ps[0] == ("artist"@, t.artists@)
            &&& ps[1] == ("track"@, t.title@)
            &&& ps[2] == ("sk"@, sk@)
        },
        now_playing_of(None, Some(t)) is None,
        scrobble_of(Some(sk), Some(t), started_at, duration_secs) is Some <==> now_playing_of(Some(sk), Some(t)) is Some,
        scrobble_of(Some(sk), Some(t), started_at, duration_secs) matches Some(ss) ==> {
            &&& ss[0] == ("artist"@, t.artists@)
            &&& ss[1] == ("track"@, t.title@)
        },
{
}

/// The parameters `scrobble_params` gives, when there is a session and a track worth sending.
pub open spec fn scrobble_of(session: Option<String>, track: Option<Track>, started_at: u64, duration_secs: Option<i64>)
    -> Option<Seq<(Seq<char>, Seq<char>)>>
{
    match (session, track) {
        (Some(sk), Some(t)) => if scrobbleable_spec(t.title@, t.artists@) {
            Some(seq![("artist"@, t.artists@), ("track"@, t.title@),
                ("timestamp"@, crate::text::nat_digits(started_at as nat)), ("sk"@, sk@)]
                + album_param(t)
                + match duration_secs {
                    Some(d) => seq![("duration"@, crate::text::int_text(d as int))],
                    None => Seq::empty(),
                })
        } else {
            None
        },
        _ => None,
    }
}

impl Scrobbler {
    /// A scrobbler with the persisted session (`None` until the user connects).
    pub fn new(session: Option<String>) -> (r: Scrobbler)
        ensures
            r.session == session,
            r.track is None,
            r.started_at == 0,
            r.duration_secs is None,
            !r.scrobbled,
    {
        Scrobbler { session, track: None, started_at: 0, duration_secs: None, scrobbled: false }
    }

    /// One event in, at most one call out. A new track resets everything and announces itself;
    /// the threshold scrobbles once per track (latched: never again until the next track); the
    /// length and the session are just stored.
    pub fn apply(&mut self, ev: ScrobbleEvent) -> (action: ScrobbleAction)
        ensures
            match ev {
                ScrobbleEvent::Track { track, started_at } => {
                    &&& final(self).track == Some(track)
                    &&& final(self).started_at == started_at
                    &&& final(self).duration_secs is None
                    &&& !final(self).scrobbled
                    &&& final(self).session == old(self).session
                    &&& match action {
                        ScrobbleAction::NowPlaying(ps) => now_playing_of(old(self).session, Some(track)) == Some(params_view(ps@)),
                        ScrobbleAction::Nothing => now_playing_of(old(self).session, Some(track)) is None,
                        ScrobbleAction::Scrobble(_) => false,
                    }
                },
                ScrobbleEvent::Duration(d) => {
                    &&& *final(self) == Scrobbler { duration_secs: d, ..*old(self) }
                    &&& action is Nothing
                },
                ScrobbleEvent::Crossed => {
                    &&& *final(self) == Scrobbler { scrobbled: true, ..*old(self) }
                    &&& if old(self).scrobbled {
                        action is Nothing
                    } else {
                        match action {
                            ScrobbleAction::Scrobble(ps) => scrobble_of(old(self).session, old(self).track,
                                old(self).started_at, old(self).duration_secs) == Some(params_view(ps@)),
                            ScrobbleAction::Nothing => scrobble_of(old(self).session, old(self).track,
                                old(self).started_at, old(self).duration_secs) is None,
                            ScrobbleAction::NowPlaying(_) => false,
                        }
                    }
                },
                ScrobbleEvent::Session(k) => {
                    &&& *final(self) == Scrobbler { session: k, ..*old(self) }
                    &&& action is Nothing
                },
            },
    {
        match ev {
            ScrobbleEvent::Track { track, started_at } => {
                let action = match &self.session {
                    Some(sk) => match now_playing_params(&track, sk.as_str()) {
                        Some(ps) => ScrobbleAction::NowPlaying(ps),
                        None => ScrobbleAction::Nothing,
                    },
                    None => ScrobbleAction::Nothing,
                };
                self.track = Some(track);
                self.started_at = started_at;
                self.duration_secs = None;
                self.scrobbled = false;
                action
            },
            ScrobbleEvent::Duration(d) => {
                self.duration_secs = d;
                ScrobbleAction::Nothing
            },
            ScrobbleEvent::Crossed => {
                if self.scrobbled {
                    return ScrobbleAction::Nothing;
                }
                self.scrobbled = true;
                match (&self.session, &self.track) {
                    (Some(sk), Some(t)) => match scrobble_params(t, self.started_at, sk.as_str(), self.duration_secs) {
                        Some(ps) => ScrobbleAction::Scrobble(ps),
                        None => ScrobbleAction::Nothing,
                    },
                    _ => ScrobbleAction::Nothing,
                }
            },
            ScrobbleEvent::Session(k) => {
                self.session = k;
                ScrobbleAction::Nothing
            },
        }
    }
}

// --- the connect flow ------------------------------------------------------------------------------

/// What the sign-in poll says when the user never approved.
pub const AUTH_TIMED_OUT: &'static str = "Last.fm authorization timed out — try again";
/// What the sign-in poll says when the session reply lacks a name or key.
pub const MALFORMED_SESSION: &'static str = "Last.fm sent a malformed session";
/// How many times the sign-in poll asks before giving up (every 5 s: five minutes).
pub const AUTH_POLL_TRIES: u32 = 60;

/// The generation of the connect flow: bumped by every connect and disconnect, so an in-flight
/// poll that finds a newer one knows it has been superseded.
#[derive(Debug, Clone, PartialEq)]
pub struct AuthGeneration {
    pub generation: u64,
}

impl AuthGeneration {
    /// Starts a new generation and returns it (wrapping, as an atomic counter does).
    pub fn bump(&mut self) -> (g: u64)
        ensures
            g == generation_after(old(self).generation, 1),
            final(self).generation == g,
    {
        assert(generation_after(self.generation, 0) == self.generation);
        self.generation = self.generation.wrapping_add(1);
        self.generation
    }

    /// Whether a poll started in generation `g` may still act.
    pub fn is_current(&self, g: u64) -> (r: bool)
        ensures
            r == (self.generation == g),
    {
        self.generation == g
    }
}

/// The generation after `k` more connects or disconnects.
pub open spec fn generation_after(g: u64, k: nat) -> u64
    decreases k,
{
    if k == 0 {
        g
    } else {
        let prev = generation_after(g, (k - 1) as nat);
        if prev == u64::MAX { 0 } else { (prev + 1) as u64 }
    }
}

proof fn lemma_generation_after(g: u64, k: nat)
    ensures
        generation_after(g, k) as int == (g as int + k) % 0x1_0000_0000_0000_0000,
    decreases k,
{
    if k > 0 {
        lemma_generation_after(g, (k - 1) as nat);
        let m: int = 0x1_0000_0000_0000_0000;
        let prev = (g as int + k - 1) % m;
        assert(0 <= prev < m);
        assert((prev + 1) % m == (g as int + k) % m) by (nonlinear_arith)
            requires
                m == 0x1_0000_0000_0000_0000,
                prev == (g as int + k - 1) % m,
        {
            vstd::arithmetic::div_mod::lemma_add_mod_noop(g as int + k - 1, 1, m);
        }
    }
}

/// A poll started by a connect is superseded by every later connect or disconnect: however many
/// there were (fewer than 2^64), the generation is no longer the poll's, so a stale poll can
/// never store a session over a newer one or over a disconnect.
pub proof fn law_later_bumps_supersede(g: u64, k: nat)
    requires
        0 < k < 0x1_0000_0000_0000_0000,
    ensures
        generation_after(g, k) != g,
{
    lemma_generation_after(g, k);
    let m: int = 0x1_0000_0000_0000_0000;
    if g as int + k < m {
        assert((g as int + k) % m == g as int + k);
    } else {
        assert((g as int + k) % m == g as int + k - m);
    }
}

/// The `lastfm-state` event: connected or not, the username, and an error to show.
pub fn state_event(connected: bool, username: Option<&str>, error: Option<&str>) -> (r: Json)
    ensures
        r@ == state_json(connected, match username { Some(u) => Some(u@), None => None },
            match error { Some(e) => Some(e@), None => None }),
{
    let u = match username {
        Some(u) => Json::Str(owned(u)),
        None => Json::Null,
    };
    let e = match error {
        Some(e) => Json::Str(owned(e)),
        None => Json::Null,
    };
    let fields = vec![(owned("connected"), Json::Bool(connected)), (owned("username"), u), (owned("error"), e)];
    let r = Json::Object(fields);
    proof {
        crate::json::lemma_fields_view(fields@);
        assert(crate::json::fields_view(fields@) =~= seq![
            ("connected"@, JsonV::Bool(connected)),
            ("username"@, match username { Some(u) => JsonV::Str(u@), None => JsonV::Null }),
            ("error"@, match error { Some(e) => JsonV::Str(e@), None => JsonV::Null }),
        ]);
        let uv: Option<Seq<char>> = match username { Some(u) => Some(u@), None => None };
        let ev: Option<Seq<char>> = match error { Some(e) => Some(e@), None => None };
        assert(state_json(connected, uv, ev)->Object_0 =~= crate::json::fields_view(fields@));
    }
    r
}

/// A reply's body as the outcome of a call: a failure when it carries an `error`.
pub fn call_outcome(body: Json) -> (r: Result<Json, ApiError>)
    ensures
        match r {
            Ok(b) => b == body && reply_error_of(body@) is None,
            Err(e) => e.code matches Some(c) && reply_error_of(body@) == Some((c as int, e.message@)),
        },
{
    match reply_error(&body) {
        Some(e) => Err(e),
        None => Ok(body),
    }
}

/// `"Last.fm: "` before a failed call's message.
pub open spec fn lastfm_failure(message: Seq<char>) -> Seq<char> {
    "Last.fm: "@ + message
}

/// The request token from the `auth.getToken` call's outcome, or what to tell the user.
pub fn connect_token(outcome: Result<Json, ApiError>) -> (r: Result<String, String>)
    ensures
        match outcome {
            Err(e) => r == Err::<String, String>(r->Err_0) && r->Err_0@ == lastfm_failure(e.message@),
            Ok(body) => match r {
                Ok(t) => str_value(get(body@, "token"@)) == Some(t@),
                Err(m) => str_value(get(body@, "token"@)) is None && m@ == "Last.fm returned no token"@,
            },
        },
{
    match outcome {
        Err(e) => {
            let mut m = owned("Last.fm: ");
            push_str(&mut m, e.message.as_str());
            Err(m)
        },
        Ok(body) => token_of_reply(&body),
    }
}

/// What one `auth.getSession` poll leads to.
#[derive(Debug, Clone, PartialEq)]
pub enum PollStep {
    /// Approved: store this session (name, key) and say so.
    Connected { name: String, key: String },
    /// Not approved yet, or a passing failure: ask again after the interval.
    KeepPolling,
    /// Give up and show this error.
    Failed(String),
}

/// The decision after one `auth.getSession` poll: a session stored when the reply has one, a
/// malformed reply reported, a retryable failure (not approved yet, service briefly down, network)
/// polled again, any other failure reported.
pub fn poll_step(outcome: Result<Json, ApiError>) -> (r: PollStep)
    ensures
        match outcome {
            Ok(body) => match session_of(body@) {
                Some(p) => r matches PollStep::Connected { name, key } && name@ == p.0 && key@ == p.1,
                None => r matches PollStep::Failed(m) && m@ == MALFORMED_SESSION@,
            },
            Err(e) => if e.code is None || e.code == Some(ERR_TOKEN_PENDING) || e.code == Some(ERR_TEMP_UNAVAILABLE) {
                r is KeepPolling
            } else {
                r matches PollStep::Failed(m) && m@ == lastfm_failure(e.message@)
            },
        },
{
    match outcome {
        Ok(body) => match session_of_reply(&body) {
            Some((name, key)) => PollStep::Connected { name, key },
            None => PollStep::Failed(owned(MALFORMED_SESSION)),
        },
        Err(e) => {
            if e.retryable() {
                PollStep::KeepPolling
            } else {
                let mut m = owned("Last.fm: ");
                push_str(&mut m, e.message.as_str());
                PollStep::Failed(m)
            }
        },
    }
}

/// The settings a connect stores: the session key and the username.
pub fn session_settings(name: &str, key: &str) -> (r: Vec<(String, String)>)
    ensures
        params_view(r@) == seq![("lastfm_session_key"@, key@), ("lastfm_username"@, name@)],
{
    let r = vec![(owned("lastfm_session_key"), owned(key)), (owned("lastfm_username"), owned(name))];
    assert(params_view(r@) =~= seq![("lastfm_session_key"@, key@), ("lastfm_username"@, name@)]);
    r
}

/// The `lastfm-state` event as a value.
pub open spec fn state_json(connected: bool, username: Option<Seq<char>>, error: Option<Seq<char>>) -> JsonV {
    JsonV::Object(seq![
        ("connected"@, JsonV::Bool(connected)),
        ("username"@, match username { Some(u) => JsonV::Str(u), None => JsonV::Null }),
        ("error"@, match error { Some(e) => JsonV::Str(e), None => JsonV::Null }),
    ])
}

/// What the sign-in poll does with one poll's decision.
#[derive(Debug)]
pub enum PollAction {
    /// Store these settings, hand the scrobbler this session key, send this event; then stop.
    Store { settings: Vec<(String, String)>, key: String, event: Json },
    /// Ask again after the interval.
    Wait,
    /// Send this event (a failure); then stop.
    Report(Json),
    /// The flow moved on (a newer connect, or a disconnect): do nothing at all, and stop.
    Stop,
}

/// Whether a poll started in generation `g` may still act on a reply: only while no connect or
/// disconnect came after it.
pub open spec fn poll_applies(auth: AuthGeneration, g: u64) -> bool {
    auth.generation == g
}

/// The sign-in poll's action on one decision, judged when the reply is in (the generation may
/// have moved while the call was out): a superseded poll writes nothing, sends nothing and stops;
/// a current one stores an approved session and reports it, waits, or reports the failure.
pub fn poll_action(auth: &AuthGeneration, g: u64, step: PollStep) -> (r: PollAction)
    ensures
        !poll_applies(*auth, g) ==> r is Stop,
        poll_applies(*auth, g) ==> match step {
            PollStep::Connected { name, key } => r matches PollAction::Store { settings, key: k, event }
                && params_view(settings@) == seq![("lastfm_session_key"@, key@), ("lastfm_username"@, name@)]
                && k@ == key@
                && event@ == state_json(true, Some(name@), None),
            PollStep::KeepPolling => r is Wait,
            PollStep::Failed(m) => r matches PollAction::Report(event) && event@ == state_json(false, None, Some(m@)),
        },
{
    if !auth.is_current(g) {
        return PollAction::Stop;
    }
    match step {
        PollStep::Connected { name, key } => {
            let settings = session_settings(name.as_str(), key.as_str());
            let event = state_event(true, Some(name.as_str()), None);
            PollAction::Store { settings, key, event }
        },
        PollStep::KeepPolling => PollAction::Wait,
        PollStep::Failed(m) => PollAction::Report(state_event(false, None, Some(m.as_str()))),
    }
}

/// A disconnect cancels every poll started before it, also one whose reply is still on its way:
/// from the disconnect until the next connect (fewer than 2^64 connects and disconnects later),
/// such a poll's action is to do nothing, so it never stores a session or reports one.
pub proof fn law_disconnect_cancels_poll(g: u64, k: nat)
    requires
        0 < k < 0x1_0000_0000_0000_0000,
    ensures
        !poll_applies(AuthGeneration { generation: generation_after(g, k) }, g),
{
    law_later_bumps_supersede(g, k);
}

/// What a disconnect does besides clearing the scrobbler's session: the settings it blanks and
/// the state event it sends.
#[derive(Debug)]
pub struct Disconnected {
    pub settings: Vec<(String, String)>,
    pub event: Json,
}

/// Disconnect: start a new generation (cancelling any poll in flight), blank the stored session
/// key and username, and report "not connected".
pub fn disconnect(auth: &mut AuthGeneration) -> (r: Disconnected)
    ensures
        final(auth).generation == generation_after(old(auth).generation, 1),
        params_view(r.settings@) == seq![("lastfm_session_key"@, ""@), ("lastfm_username"@, ""@)],
        r.event@ == JsonV::Object(seq![
            ("connected"@, JsonV::Bool(false)),
            ("username"@, JsonV::Null),
            ("error"@, JsonV::Null),
        ]),
{
    auth.bump();
    let settings = session_settings("", "");
    let event = state_event(false, None, None);
    assert(event@->Object_0 =~= seq![
        ("connected"@, JsonV::Bool(false)),
        ("username"@, JsonV::Null),
        ("error"@, JsonV::Null),
    ]);
    Disconnected { settings, event }
}

} // verus!
