//! Signing in through the user's own browser: the Google page to open, and the `Cookie` header
//! made of the YouTube cookies a Firefox-family profile holds.
use vstd::prelude::*;

use crate::text::{
    ends_with, is_prefix, is_suffix, lemma_name_lt_asymmetric, lemma_name_lt_irreflexive,
    lemma_name_lt_total, lemma_name_lt_transitive, lines, lines_of, name_lt, occurs_in, owned,
    push_str, starts_with, str_eq, str_lt, strip_prefix, trim, trimmed, contains,
};

verus! {

/// Google's account chooser, then YouTube Music. `continue` is percent-encoded so a desktop
/// opener cannot scrape a nested `https://music.youtube.com/` and open that instead of Google;
/// `AccountChooser` with `passive=false` so an existing browser session cannot skip the form.
pub const GOOGLE_LOGIN_URL: &'static str =
    "https://accounts.google.com/AccountChooser?continue=https%3A%2F%2Fmusic.youtube.com%2F&hl=en&passive=false&service=youtube";

/// The user agent of the in-app sign-in window: a Safari on macOS, the most consistent claim
/// for a WebKit engine.
pub const LOGIN_UA: &'static str =
    "Mozilla/5.0 (Macintosh; Intel Mac OS X 10_15_7) AppleWebKit/605.1.15 (KHTML, like Gecko) Version/17.4.1 Safari/605.1.15";

/// The label of the in-app sign-in window.
pub const LOGIN_LABEL: &'static str = "login";

// --- which cookies count ----------------------------------------------------------------------

/// The YouTube rows of a cookie database whose table records partitions and expiry: only
/// unpartitioned cookies that have not expired. YouTube Music is sent `.youtube.com` cookies
/// only; Google's `SID`/`SAPISID` have the same names and would replace YouTube's values.
pub const COOKIE_QUERY_UNPARTITIONED: &'static str = "SELECT name, value, host FROM moz_cookies WHERE (host = '.youtube.com' OR host = 'youtube.com' OR host = 'music.youtube.com' OR host LIKE '%.youtube.com') AND IFNULL(originAttributes, '') = '' AND (IFNULL(expiry, 0) = 0 OR expiry > strftime('%s','now'))";

/// The YouTube rows of an older cookie table, which records neither.
pub const COOKIE_QUERY_PLAIN: &'static str = "SELECT name, value, host FROM moz_cookies WHERE host = '.youtube.com' OR host = 'youtube.com' OR host = 'music.youtube.com' OR host LIKE '%.youtube.com'";

/// The query for a cookie table, by which of the `originAttributes` and `expiry` columns it has:
/// the filtered one only when it has both.
pub fn cookie_query(has_origin_attributes: bool, has_expiry: bool) -> (r: &'static str)
    ensures
        r@ == (if has_origin_attributes && has_expiry { COOKIE_QUERY_UNPARTITIONED@ } else { COOKIE_QUERY_PLAIN@ }),
{
    if has_origin_attributes && has_expiry { COOKIE_QUERY_UNPARTITIONED } else { COOKIE_QUERY_PLAIN }
}

/// `s` without its leading dots (`trim_start_matches('.')`).
pub open spec fn without_leading_dots(s: Seq<char>) -> Seq<char>
    decreases s.len(),
{
    if s.len() > 0 && s[0] == '.' { without_leading_dots(s.drop_first()) } else { s }
}

/// A cookie host YouTube Music is sent cookies for: `youtube.com` or one of its subdomains.
pub open spec fn is_youtube_host(host: Seq<char>) -> bool {
    let h = without_leading_dots(host);
    h == "youtube.com"@ || is_suffix(".youtube.com"@, h)
}

/// Whether a cookie's host is YouTube's (leading dots ignored).
pub fn youtube_cookie_host(host: &str) -> (r: bool)
    ensures
        r == is_youtube_host(host@),
{
    let v = crate::text::chars_of(host);
    let mut i: usize = 0;
    assert(v@.skip(0) =~= v@);
    while i < v.len() && v[i] == '.'
        invariant
            0 <= i <= v@.len(),
            v@ == host@,
            without_leading_dots(host@) == without_leading_dots(v@.skip(i as int)),
        decreases v@.len() - i,
    {
        assert(v@.skip(i as int).drop_first() =~= v@.skip(i + 1));
        i = i + 1;
    }
    let rest = crate::text::string_of(&v, i, v.len());
    assert(v@.skip(i as int) =~= rest@);
    assert(without_leading_dots(rest@) == rest@);
    str_eq(rest.as_str(), "youtube.com") || ends_with(rest.as_str(), ".youtube.com")
}

/// How much a host's copy of a cookie counts: music.youtube.com's beats the shared one.
pub open spec fn host_rank(host: Seq<char>) -> int {
    if occurs_in("music.youtube.com"@, host) { 2 } else { 1 }
}

/// A row that goes into the header: named, valued, YouTube's, and not one of the `ST-*` request
/// tokens (dozens of them, 100KB+, which blow past HTTP header limits).
pub open spec fn row_kept(name: Seq<char>, value: Seq<char>, host: Seq<char>) -> bool {
    name.len() > 0 && value.len() > 0 && is_youtube_host(host) && !is_prefix("ST-"@, name)
}

// --- the jar: a map from name to (rank, value), kept sorted by name ----------------------------

/// One cookie in the jar: name, rank, value.
pub type Entry = (Seq<char>, int, Seq<char>);

/// The jar after offering it `e`: a new name goes in at its place in name order; a known name
/// takes `e` only when `e` ranks higher than what it holds.
pub open spec fn jar_put(es: Seq<Entry>, e: Entry) -> Seq<Entry>
    decreases es.len(),
{
    if es.len() == 0 {
        seq![e]
    } else if es[0].0 == e.0 {
        if es[0].1 >= e.1 { es } else { seq![e] + es.drop_first() }
    } else if name_lt(e.0, es[0].0) {
        seq![e] + es
    } else {
        seq![es[0]] + jar_put(es.drop_first(), e)
    }
}

/// Cookie database rows as values: name, value, host.
pub open spec fn rows_view(rows: Seq<(String, String, String)>) -> Seq<(Seq<char>, Seq<char>, Seq<char>)> {
    rows.map_values(|r: (String, String, String)| (r.0@, r.1@, r.2@))
}

/// The jar filled from the rows, in order.
pub open spec fn jar_of(rows: Seq<(Seq<char>, Seq<char>, Seq<char>)>) -> Seq<Entry>
    decreases rows.len(),
{
    if rows.len() == 0 {
        Seq::empty()
    } else {
        let jar = jar_of(rows.drop_last());
        let r = rows.last();
        if row_kept(r.0, r.1, r.2) { jar_put(jar, (r.0, host_rank(r.2), r.1)) } else { jar }
    }
}

/// `name=value`.
pub open spec fn cookie_pair(e: Entry) -> Seq<char> {
    e.0 + "="@ + e.2
}

/// The entries as a `Cookie` header: `name=value` pairs joined by `; `.
pub open spec fn cookie_header(es: Seq<Entry>) -> Seq<char>
    decreases es.len(),
{
    if es.len() == 0 {
        Seq::empty()
    } else if es.len() == 1 {
        cookie_pair(es[0])
    } else {
        cookie_header(es.drop_last()) + "; "@ + cookie_pair(es.last())
    }
}

/// The jar authenticates: it holds `SAPISID`, or a cookie whose name ends in it.
pub open spec fn has_sapisid(es: Seq<Entry>) -> bool {
    (exists|i: int| 0 <= i < es.len() && #[trigger] es[i].0 == "SAPISID"@)
        || (exists|i: int| 0 <= i < es.len() && is_suffix("SAPISID"@, #[trigger] es[i].0))
}

/// Names in strictly increasing order.
pub open spec fn names_ascending(es: Seq<Entry>) -> bool {
    forall|i: int, j: int| 0 <= i < j < es.len() ==> name_lt(#[trigger] es[i].0, #[trigger] es[j].0)
}

pub open spec fn jar_view(jar: Seq<(String, u64, String)>) -> Seq<Entry> {
    jar.map_values(|e: (String, u64, String)| (e.0@, e.1 as int, e.2@))
}

/// `jar_put` walks past every entry whose name comes before `e`'s.
proof fn lemma_jar_put_skip(es: Seq<Entry>, e: Entry, i: int)
    requires
        0 <= i <= es.len(),
        forall|j: int| 0 <= j < i ==> name_lt(#[trigger] es[j].0, e.0),
    ensures
        jar_put(es, e) == es.take(i) + jar_put(es.skip(i), e),
    decreases i,
{
    if i == 0 {
        assert(es.take(0) + jar_put(es.skip(0), e) =~= jar_put(es, e)) by {
            assert(es.skip(0) =~= es);
        }
    } else {
        lemma_name_lt_irreflexive(e.0);
        lemma_name_lt_asymmetric(es[0].0, e.0);
        assert(es[0].0 != e.0);
        assert(!name_lt(e.0, es[0].0));
        let rest = es.drop_first();
        assert forall|j: int| 0 <= j < i - 1 implies name_lt(#[trigger] rest[j].0, e.0) by {
            assert(rest[j] == es[j + 1]);
        }
        lemma_jar_put_skip(rest, e, i - 1);
        assert(rest.skip(i - 1) =~= es.skip(i));
        assert(seq![es[0]] + rest.take(i - 1) =~= es.take(i));
    }
}

/// Offers one cookie to the jar.
fn jar_insert(jar: &mut Vec<(String, u64, String)>, name: String, rank: u64, value: String)
    ensures
        jar_view(final(jar)@) == jar_put(jar_view(old(jar)@), (name@, rank as int, value@)),
{
    let ghost es = jar_view(jar@);
    let ghost e: Entry = (name@, rank as int, value@);
    let mut i: usize = 0;
    while i < jar.len() && str_lt(jar[i].0.as_str(), name.as_str())
        invariant
            0 <= i <= jar@.len(),
            es == jar_view(jar@),
            jar@ == old(jar)@,
            e == (name@, rank as int, value@),
            forall|j: int| 0 <= j < i ==> name_lt(#[trigger] es[j].0, e.0),
        decreases jar@.len() - i,
    {
        assert(es[i as int].0 == jar@[i as int].0@);
        i = i + 1;
    }
    proof {
        lemma_jar_put_skip(es, e, i as int);
    }
    if i < jar.len() && str_eq(jar[i].0.as_str(), name.as_str()) {
        assert(es.skip(i as int)[0] == es[i as int]);
        if jar[i].1 < rank {
            jar.set(i, (name, rank, value));
            assert(jar_view(jar@) =~= es.take(i as int) + (seq![e] + es.skip(i as int).drop_first()));
        } else {
            assert(es.take(i as int) + es.skip(i as int) =~= es);
        }
    } else {
        proof {
            if i < jar.len() {
                assert(es.skip(i as int)[0] == es[i as int]);
                lemma_name_lt_total(e.0, es[i as int].0);
            }
        }
        jar.insert(i, (name, rank, value));
        assert(jar_view(jar@) =~= es.take(i as int) + (seq![e] + es.skip(i as int)));
    }
}

/// The `Cookie` header of the YouTube rows of a Firefox-family cookie database, or `None` when
/// they hold no `SAPISID` (signed out there). Per name the highest-ranked host's value wins, the
/// first one read among equals; the header lists the names in order.
pub fn youtube_cookie_header(rows: &Vec<(String, String, String)>) -> (r: Option<String>)
    ensures
        match r {
            Some(h) => has_sapisid(jar_of(rows_view(rows@))) && h@ == cookie_header(jar_of(rows_view(rows@))),
            None => !has_sapisid(jar_of(rows_view(rows@))),
        },
{
    let ghost rs = rows_view(rows@);
    let mut jar: Vec<(String, u64, String)> = Vec::new();
    let mut i: usize = 0;
    while i < rows.len()
        invariant
            0 <= i <= rows@.len(),
            rs == rows_view(rows@),
            jar_view(jar@) == jar_of(rs.take(i as int)),
        decreases rows@.len() - i,
    {
        assert(rs.take(i + 1).drop_last() =~= rs.take(i as int));
        assert(rs.take(i + 1).last() == rs[i as int]);
        let name = &rows[i].0;
        let value = &rows[i].1;
        let host = &rows[i].2;
        let kept = !name.as_str().is_empty() && !value.as_str().is_empty()
            && youtube_cookie_host(host.as_str()) && !starts_with(name.as_str(), "ST-");
        if kept {
            let rank: u64 = if contains(host.as_str(), "music.youtube.com") { 2 } else { 1 };
            jar_insert(&mut jar, name.clone(), rank, value.clone());
        }
        i = i + 1;
    }
    assert(rs.take(rows@.len() as int) =~= rs);
    let ghost es = jar_view(jar@);
    let mut found = false;
    let mut k: usize = 0;
    while k < jar.len()
        invariant
            0 <= k <= jar@.len(),
            es == jar_view(jar@),
            found <==> exists|j: int| 0 <= j < k && is_suffix("SAPISID"@, #[trigger] es[j].0),
        decreases jar@.len() - k,
    {
        if ends_with(jar[k].0.as_str(), "SAPISID") {
            found = true;
        }
        assert(es[k as int].0 == jar@[k as int].0@);
        k = k + 1;
    }
    if !found {
        proof {
            if exists|j: int| 0 <= j < es.len() && #[trigger] es[j].0 == "SAPISID"@ {
                let j = choose|j: int| 0 <= j < es.len() && #[trigger] es[j].0 == "SAPISID"@;
                reveal_strlit("SAPISID");
                assert(es[j].0.subrange(0, 7) =~= es[j].0);
                assert(is_suffix("SAPISID"@, es[j].0));
            }
        }
        return None;
    }
    let mut h = String::new();
    let mut k: usize = 0;
    while k < jar.len()
        invariant
            0 <= k <= jar@.len(),
            es == jar_view(jar@),
            h@ == cookie_header(es.take(k as int)),
        decreases jar@.len() - k,
    {
        assert(es.take(k + 1).drop_last() =~= es.take(k as int));
        assert(es.take(k + 1).last() == es[k as int]);
        if k > 0 {
            push_str(&mut h, "; ");
        }
        push_str(&mut h, jar[k].0.as_str());
        push_str(&mut h, "=");
        push_str(&mut h, jar[k].2.as_str());
        proof {
            if k == 0 {
                assert(h@ =~= cookie_pair(es[0]));
            } else {
                assert(h@ =~= cookie_header(es.take(k as int)) + "; "@ + cookie_pair(es[k as int]));
            }
        }
        k = k + 1;
    }
    assert(es.take(jar@.len() as int) =~= es);
    Some(h)
}

// --- what the jar keeps -------------------------------------------------------------------------

/// The jar holds `name` at rank `rank` or higher.
pub open spec fn holds_at_least(es: Seq<Entry>, name: Seq<char>, rank: int) -> bool {
    exists|i: int| 0 <= i < es.len() && #[trigger] es[i].0 == name && es[i].1 >= rank
}

/// Some kept row reads as entry `e`.
pub open spec fn from_kept_row(rows: Seq<(Seq<char>, Seq<char>, Seq<char>)>, e: Entry) -> bool {
    exists|k: int| #[trigger] row_gives(rows, k, e)
}

/// Row `k` is kept and reads as entry `e`.
pub open spec fn row_gives(rows: Seq<(Seq<char>, Seq<char>, Seq<char>)>, k: int, e: Entry) -> bool {
    0 <= k < rows.len() && row_kept(rows[k].0, rows[k].1, rows[k].2)
        && e == (rows[k].0, host_rank(rows[k].2), rows[k].1)
}

proof fn lemma_jar_put(es: Seq<Entry>, e: Entry)
    ensures
        forall|x: Entry| #[trigger] jar_put(es, e).contains(x) ==> x == e || es.contains(x),
        holds_at_least(jar_put(es, e), e.0, e.1),
        forall|n: Seq<char>, r: int| holds_at_least(es, n, r) ==> #[trigger] holds_at_least(jar_put(es, e), n, r),
        names_ascending(es) ==> names_ascending(jar_put(es, e)),
    decreases es.len(),
{
    let out = jar_put(es, e);
    if es.len() == 0 {
        assert(out[0] == e);
    } else if es[0].0 == e.0 {
        if es[0].1 >= e.1 {
            assert(out[0].0 == e.0);
        } else {
            assert(out[0] == e);
            assert forall|x: Entry| #[trigger] out.contains(x) implies x == e || es.contains(x) by {
                let i = choose|i: int| 0 <= i < out.len() && out[i] == x;
                if i > 0 {
                    assert(out[i] == es[i]);
                }
            }
            assert forall|n: Seq<char>, r: int| holds_at_least(es, n, r) implies #[trigger] holds_at_least(out, n, r) by {
                let i = choose|i: int| 0 <= i < es.len() && #[trigger] es[i].0 == n && es[i].1 >= r;
                if i > 0 {
                    assert(out[i] == es[i]);
                } else {
                    assert(out[0].0 == n);
                }
            }
            if names_ascending(es) {
                assert forall|i: int, j: int| 0 <= i < j < out.len() implies name_lt(#[trigger] out[i].0, #[trigger] out[j].0) by {
                    assert(out[j] == es[j]);
                    if i > 0 {
                        assert(out[i] == es[i]);
                    } else {
                        assert(out[0].0 == es[0].0);
                    }
                }
            }
        }
    } else if name_lt(e.0, es[0].0) {
        assert(out[0] == e);
        assert forall|x: Entry| #[trigger] out.contains(x) implies x == e || es.contains(x) by {
            let i = choose|i: int| 0 <= i < out.len() && out[i] == x;
            if i > 0 {
                assert(out[i] == es[i - 1]);
            }
        }
        assert forall|n: Seq<char>, r: int| holds_at_least(es, n, r) implies #[trigger] holds_at_least(out, n, r) by {
            let i = choose|i: int| 0 <= i < es.len() && #[trigger] es[i].0 == n && es[i].1 >= r;
            assert(out[i + 1] == es[i]);
        }
        if names_ascending(es) {
            assert forall|i: int, j: int| 0 <= i < j < out.len() implies name_lt(#[trigger] out[i].0, #[trigger] out[j].0) by {
                assert(out[j] == es[j - 1]);
                if i > 0 {
                    assert(out[i] == es[i - 1]);
                } else if j > 1 {
                    assert(name_lt(es[0].0, es[j - 1].0));
                    lemma_name_lt_transitive(e.0, es[0].0, es[j - 1].0);
                }
            }
        }
    } else {
        let rest = es.drop_first();
        lemma_jar_put(rest, e);
        let inner = jar_put(rest, e);
        assert(out =~= seq![es[0]] + inner);
        assert forall|x: Entry| #[trigger] out.contains(x) implies x == e || es.contains(x) by {
            let i = choose|i: int| 0 <= i < out.len() && out[i] == x;
            if i > 0 {
                assert(out[i] == inner[i - 1]);
                assert(inner.contains(x));
                if rest.contains(x) {
                    let j = choose|j: int| 0 <= j < rest.len() && rest[j] == x;
                    assert(es[j + 1] == x);
                }
            } else {
                assert(es[0] == x);
            }
        }
        let i0 = choose|i: int| 0 <= i < inner.len() && #[trigger] inner[i].0 == e.0 && inner[i].1 >= e.1;
        assert(out[i0 + 1] == inner[i0]);
        assert forall|n: Seq<char>, r: int| holds_at_least(es, n, r) implies #[trigger] holds_at_least(out, n, r) by {
            let i = choose|i: int| 0 <= i < es.len() && #[trigger] es[i].0 == n && es[i].1 >= r;
            if i > 0 {
                assert(rest[i - 1] == es[i]);
                assert(holds_at_least(rest, n, r));
                assert(holds_at_least(inner, n, r));
                let k = choose|k: int| 0 <= k < inner.len() && #[trigger] inner[k].0 == n && inner[k].1 >= r;
                assert(out[k + 1] == inner[k]);
            } else {
                assert(out[0] == es[0]);
            }
        }
        if names_ascending(es) {
            assert(names_ascending(rest)) by {
                assert forall|i: int, j: int| 0 <= i < j < rest.len() implies name_lt(#[trigger] rest[i].0, #[trigger] rest[j].0) by {
                    assert(rest[i] == es[i + 1]);
                    assert(rest[j] == es[j + 1]);
                }
            }
            lemma_name_lt_total(e.0, es[0].0);
            assert forall|i: int, j: int| 0 <= i < j < out.len() implies name_lt(#[trigger] out[i].0, #[trigger] out[j].0) by {
                assert(out[j] == inner[j - 1]);
                if i > 0 {
                    assert(out[i] == inner[i - 1]);
                } else {
                    assert(inner.contains(inner[j - 1]));
                    if inner[j - 1] != e {
                        assert(rest.contains(inner[j - 1]));
                        let k = choose|k: int| 0 <= k < rest.len() && rest[k] == inner[j - 1];
                        assert(es[k + 1] == rest[k]);
                    }
                }
            }
        }
    }
}

/// What the jar keeps, for any rows: its names come in strictly increasing order (so no name is
/// there twice); every entry is the name, host rank and value of a row that passes the filter
/// (YouTube host, named, valued, no `ST-` request token); and for every such row the jar holds
/// its name at that row's rank or higher, so a music.youtube.com value is never displaced by the
/// shared youtube.com one.
pub proof fn law_cookie_jar(rows: Seq<(Seq<char>, Seq<char>, Seq<char>)>)
    ensures
        names_ascending(jar_of(rows)),
        forall|i: int| 0 <= i < jar_of(rows).len() ==> from_kept_row(rows, #[trigger] jar_of(rows)[i]),
        forall|k: int| 0 <= k < rows.len() && row_kept(rows[k].0, rows[k].1, rows[k].2)
            ==> #[trigger] holds_at_least(jar_of(rows), rows[k].0, host_rank(rows[k].2)),
    decreases rows.len(),
{
    if rows.len() > 0 {
        let prev = rows.drop_last();
        law_cookie_jar(prev);
        let jar = jar_of(prev);
        let r = rows.last();
        let n = rows.len() - 1;
        assert forall|k: int, e: Entry| #[trigger] row_gives(prev, k, e) implies row_gives(rows, k, e) by {
            assert(prev[k] == rows[k]);
        }
        if row_kept(r.0, r.1, r.2) {
            let e: Entry = (r.0, host_rank(r.2), r.1);
            lemma_jar_put(jar, e);
            let out = jar_put(jar, e);
            assert(jar_of(rows) == out);
            assert(row_gives(rows, n, e));
            assert forall|i: int| 0 <= i < out.len() implies from_kept_row(rows, #[trigger] out[i]) by {
                assert(out.contains(out[i]));
                if out[i] != e {
                    let j = choose|j: int| 0 <= j < jar.len() && jar[j] == out[i];
                    let k = choose|k: int| #[trigger] row_gives(prev, k, jar[j]);
                    assert(row_gives(rows, k, out[i]));
                } else {
                    assert(row_gives(rows, n, out[i]));
                }
            }
            assert forall|k: int| 0 <= k < rows.len() && row_kept(rows[k].0, rows[k].1, rows[k].2)
                implies #[trigger] holds_at_least(out, rows[k].0, host_rank(rows[k].2)) by {
                if k < n {
                    assert(prev[k] == rows[k]);
                    assert(holds_at_least(jar, prev[k].0, host_rank(prev[k].2)));
                }
            }
        } else {
            assert(jar_of(rows) == jar);
            assert forall|i: int| 0 <= i < jar.len() implies from_kept_row(rows, #[trigger] jar[i]) by {
                let k = choose|k: int| #[trigger] row_gives(prev, k, jar[i]);
                assert(row_gives(rows, k, jar[i]));
            }
            assert forall|k: int| 0 <= k < rows.len() && row_kept(rows[k].0, rows[k].1, rows[k].2)
                implies #[trigger] holds_at_least(jar, rows[k].0, host_rank(rows[k].2)) by {
                assert(k < n);
                assert(prev[k] == rows[k]);
            }
        }
    }
}

// --- the in-app window's cookies ---------------------------------------------------------------

/// The jar the sign-in window's cookies make, as a map from name to value: each pair offered in
/// turn, a later pair replacing an earlier one of the same name (its rank is its position).
pub open spec fn jar_of_pairs(pairs: Seq<(Seq<char>, Seq<char>)>) -> Seq<Entry>
    decreases pairs.len(),
{
    if pairs.len() == 0 {
        Seq::empty()
    } else {
        let last = pairs.last();
        jar_put(jar_of_pairs(pairs.drop_last()), (last.0, pairs.len() - 1, last.1))
    }
}

pub open spec fn pairs_view(pairs: Seq<(String, String)>) -> Seq<(Seq<char>, Seq<char>)> {
    pairs.map_values(|p: (String, String)| (p.0@, p.1@))
}

/// Ranks below the number of pairs offered so far.
spec fn ranks_below(es: Seq<Entry>, n: int) -> bool {
    forall|i: int| 0 <= i < es.len() ==> #[trigger] es[i].1 < n
}

proof fn lemma_jar_put_ranks(es: Seq<Entry>, e: Entry, n: int)
    requires
        ranks_below(es, n),
        e.1 < n,
    ensures
        ranks_below(jar_put(es, e), n),
{
    lemma_jar_put(es, e);
    let out = jar_put(es, e);
    assert forall|i: int| 0 <= i < out.len() implies #[trigger] out[i].1 < n by {
        assert(out.contains(out[i]));
        if out[i] != e {
            let j = choose|j: int| 0 <= j < es.len() && es[j] == out[i];
        }
    }
}

/// The `Cookie` header of the sign-in window's cookies for music.youtube.com and www.youtube.com,
/// read in that order: one `name=value` per name, the last value read winning, names in order.
pub fn login_cookie_header(pairs: &Vec<(String, String)>) -> (r: String)
    requires
        pairs@.len() < u64::MAX,
    ensures
        r@ == cookie_header(jar_of_pairs(pairs_view(pairs@))),
{
    let ghost ps = pairs_view(pairs@);
    let mut jar: Vec<(String, u64, String)> = Vec::new();
    let mut i: usize = 0;
    while i < pairs.len()
        invariant
            0 <= i <= pairs@.len(),
            pairs@.len() < u64::MAX,
            ps == pairs_view(pairs@),
            jar_view(jar@) == jar_of_pairs(ps.take(i as int)),
        decreases pairs@.len() - i,
    {
        assert(ps.take(i + 1).drop_last() =~= ps.take(i as int));
        assert(ps.take(i + 1).last() == ps[i as int]);
        jar_insert(&mut jar, pairs[i].0.clone(), i as u64, pairs[i].1.clone());
        i = i + 1;
    }
    assert(ps.take(pairs@.len() as int) =~= ps);
    let ghost es = jar_view(jar@);
    let mut h = String::new();
    let mut k: usize = 0;
    while k < jar.len()
        invariant
            0 <= k <= jar@.len(),
            es == jar_view(jar@),
            h@ == cookie_header(es.take(k as int)),
        decreases jar@.len() - k,
    {
        assert(es.take(k + 1).drop_last() =~= es.take(k as int));
        assert(es.take(k + 1).last() == es[k as int]);
        if k > 0 {
            push_str(&mut h, "; ");
        }
        push_str(&mut h, jar[k].0.as_str());
        push_str(&mut h, "=");
        push_str(&mut h, jar[k].2.as_str());
        proof {
            if k == 0 {
                assert(h@ =~= cookie_pair(es[0]));
            } else {
                assert(h@ =~= cookie_header(es.take(k as int)) + "; "@ + cookie_pair(es[k as int]));
            }
        }
        k = k + 1;
    }
    assert(es.take(jar@.len() as int) =~= es);
    h
}

/// A pair offered later replaces the value an earlier one of the same name left: every pair's
/// name is in the jar, and the value there is that of the last pair with the name.
pub proof fn law_login_cookie_last_wins(pairs: Seq<(Seq<char>, Seq<char>)>, k: int)
    requires
        0 <= k < pairs.len(),
        forall|j: int| k < j < pairs.len() ==> #[trigger] pairs[j].0 != pairs[k].0,
    ensures
        exists|i: int| 0 <= i < jar_of_pairs(pairs).len() && #[trigger] jar_of_pairs(pairs)[i]
            == (pairs[k].0, k, pairs[k].1),
    decreases pairs.len(),
{
    let prev = pairs.drop_last();
    let n = pairs.len() - 1;
    let last = pairs.last();
    lemma_pairs_ranks(prev);
    lemma_jar_put(jar_of_pairs(prev), (last.0, n, last.1));
    let out = jar_of_pairs(pairs);
    if k == n {
        let i = choose|i: int| 0 <= i < out.len() && #[trigger] out[i].0 == last.0 && out[i].1 >= n;
        assert(out.contains(out[i]));
        if out[i] != (last.0, n, last.1) {
            let j = choose|j: int| 0 <= j < jar_of_pairs(prev).len() && jar_of_pairs(prev)[j] == out[i];
            assert(jar_of_pairs(prev)[j].1 < n);
        }
    } else {
        assert forall|j: int| k < j < prev.len() implies #[trigger] prev[j].0 != prev[k].0 by {
            assert(prev[j] == pairs[j]);
        }
        law_login_cookie_last_wins(prev, k);
        assert(prev[k] == pairs[k]);
        let jar = jar_of_pairs(prev);
        let i = choose|i: int| 0 <= i < jar.len() && #[trigger] jar[i] == (pairs[k].0, k, pairs[k].1);
        lemma_jar_put_keeps_others(jar, (last.0, n, last.1), i);
    }
}

proof fn lemma_pairs_ranks(pairs: Seq<(Seq<char>, Seq<char>)>)
    ensures
        ranks_below(jar_of_pairs(pairs), pairs.len() as int),
    decreases pairs.len(),
{
    if pairs.len() > 0 {
        let prev = pairs.drop_last();
        lemma_pairs_ranks(prev);
        let jar = jar_of_pairs(prev);
        assert forall|i: int| 0 <= i < jar.len() implies #[trigger] jar[i].1 < pairs.len() by {
            assert(jar[i].1 < prev.len());
        }
        lemma_jar_put_ranks(jar, (pairs.last().0, pairs.len() - 1, pairs.last().1), pairs.len() as int);
    }
}

/// An entry whose name differs from `e`'s survives `jar_put` untouched.
proof fn lemma_jar_put_keeps_others(es: Seq<Entry>, e: Entry, i: int)
    requires
        0 <= i < es.len(),
        es[i].0 != e.0,
    ensures
        jar_put(es, e).contains(es[i]),
    decreases es.len(),
{
    let out = jar_put(es, e);
    if es[0].0 == e.0 {
        if es[0].1 < e.1 {
            assert(out[i] == es[i]);
        } else {
            assert(out[i] == es[i]);
        }
    } else if name_lt(e.0, es[0].0) {
        assert(out[i + 1] == es[i]);
    } else if i == 0 {
        assert(out[0] == es[0]);
    } else {
        let rest = es.drop_first();
        assert(rest[i - 1] == es[i]);
        lemma_jar_put_keeps_others(rest, e, i - 1);
        let inner = jar_put(rest, e);
        let j = choose|j: int| 0 <= j < inner.len() && inner[j] == es[i];
        assert(out[j + 1] == inner[j]);
    }
}

// --- profiles.ini ------------------------------------------------------------------------------

/// What the `Default=` lines of a `profiles.ini` name: on an `[Install]` section a directory; the
/// `1`/`0` flags of `[Profile]` sections (and empty values) are not directories.
pub open spec fn default_dirs(lines: Seq<Seq<char>>) -> Seq<Seq<char>>
    decreases lines.len(),
{
    if lines.len() == 0 {
        Seq::empty()
    } else {
        let prev = default_dirs(lines.drop_last());
        let t = trimmed(lines.last());
        if is_prefix("Default="@, t) {
            let value = t.skip(8);
            if value == "0"@ || value == "1"@ || value.len() == 0 { prev } else { prev.push(value) }
        } else {
            prev
        }
    }
}

/// The profile directories (relative to the profile root) that a `profiles.ini` marks default.
pub fn profiles_ini_default_names(text: &str) -> (r: Vec<String>)
    ensures
        r@.map_values(|d: String| d@) == default_dirs(lines_of(text@)),
{
    proof {
        reveal_strlit("Default=");
    }
    let ls = lines(text);
    let ghost lv = ls@.map_values(|l: String| l@);
    let mut out: Vec<String> = Vec::new();
    let mut i: usize = 0;
    while i < ls.len()
        invariant
            0 <= i <= ls@.len(),
            lv == ls@.map_values(|l: String| l@),
            lv == lines_of(text@),
            "Default="@.len() == 8,
            out@.map_values(|d: String| d@) == default_dirs(lv.take(i as int)),
        decreases ls@.len() - i,
    {
        assert(lv.take(i + 1).drop_last() =~= lv.take(i as int));
        assert(lv.take(i + 1).last() == ls@[i as int]@);
        let t = trim(ls[i].as_str());
        match strip_prefix(t.as_str(), "Default=") {
            Some(value) => {
                assert(value@ =~= t@.skip(8));
                if !(str_eq(value.as_str(), "0") || str_eq(value.as_str(), "1") || value.as_str().is_empty()) {
                    let ghost before = out@;
                    out.push(value);
                    assert(out@.map_values(|d: String| d@) =~= before.map_values(|d: String| d@).push(t@.skip(8)));
                }
            },
            None => {},
        }
        i = i + 1;
    }
    assert(lv.take(ls@.len() as int) =~= lv);
    out
}

// --- which cookie database first ------------------------------------------------------------------

/// A cookie database found in a profile: its path and its modification time (nanoseconds from
/// the Unix epoch, negative before it), when the file system gave one.
pub type Candidate = (Seq<char>, Option<int>);

/// Modification times in order, an unknown one first (as `Option<SystemTime>` orders them).
pub open spec fn mtime_lt(a: Option<int>, b: Option<int>) -> bool {
    match (a, b) {
        (None, Some(_)) => true,
        (Some(x), Some(y)) => x < y,
        _ => false,
    }
}

/// Where a stable insertion puts `x`: after every candidate that is not newer.
pub open spec fn mtime_insert_pos(s: Seq<Candidate>, x: Candidate) -> int
    decreases s.len(),
{
    if s.len() == 0 || !mtime_lt(x.1, s.last().1) { s.len() as int } else { mtime_insert_pos(s.drop_last(), x) }
}

/// The candidates sorted oldest first, stably (`sort_by_key` on the modification time).
pub open spec fn sort_by_mtime(s: Seq<Candidate>) -> Seq<Candidate>
    decreases s.len(),
{
    if s.len() == 0 {
        Seq::empty()
    } else {
        let rest = sort_by_mtime(s.drop_last());
        let p = mtime_insert_pos(rest, s.last());
        rest.take(p).push(s.last()) + rest.skip(p)
    }
}

/// The order to try cookie databases in: the profiles that `profiles.ini` marks default, as
/// found; then the others newest first (sorted oldest first, then reversed).
pub open spec fn cookie_db_order_of(preferred: Seq<Seq<char>>, rest: Seq<Candidate>) -> Seq<Seq<char>> {
    preferred + sort_by_mtime(rest).reverse().map_values(|c: Candidate| c.0)
}

pub open spec fn candidates_view(v: Seq<(String, Option<i128>)>) -> Seq<Candidate> {
    v.map_values(|c: (String, Option<i128>)| (c.0@, match c.1 { Some(t) => Some(t as int), None => None }))
}

proof fn lemma_mtime_insert_pos_bounds(s: Seq<Candidate>, x: Candidate)
    ensures
        0 <= mtime_insert_pos(s, x) <= s.len(),
    decreases s.len(),
{
    if s.len() != 0 && mtime_lt(x.1, s.last().1) {
        lemma_mtime_insert_pos_bounds(s.drop_last(), x);
    }
}

fn mtime_before(a: Option<i128>, b: Option<i128>) -> (r: bool)
    ensures
        r == mtime_lt(match a { Some(t) => Some(t as int), None => None }, match b { Some(t) => Some(t as int), None => None }),
{
    match (a, b) {
        (None, Some(_)) => true,
        (Some(x), Some(y)) => x < y,
        _ => false,
    }
}

/// Inserts `x` where a stable sort by modification time puts it.
fn insert_by_mtime(sorted: &mut Vec<(String, Option<i128>)>, x: (String, Option<i128>))
    ensures
        candidates_view(final(sorted)@) == {
            let s = candidates_view(old(sorted)@);
            let xv = (x.0@, match x.1 { Some(t) => Some(t as int), None => None });
            let p = mtime_insert_pos(s, xv);
            s.take(p).push(xv) + s.skip(p)
        },
{
    let ghost s = candidates_view(sorted@);
    let ghost xv: Candidate = (x.0@, match x.1 { Some(t) => Some(t as int), None => None });
    let mut j = sorted.len();
    assert(s.take(j as int) =~= s);
    while j > 0 && mtime_before(x.1, sorted[j - 1].1)
        invariant
            0 <= j <= sorted@.len(),
            s == candidates_view(sorted@),
            sorted@ == old(sorted)@,
            xv == (x.0@, match x.1 { Some(t) => Some(t as int), None => None }),
            mtime_insert_pos(s, xv) == mtime_insert_pos(s.take(j as int), xv),
        decreases j,
    {
        assert(s.take(j as int).drop_last() =~= s.take(j - 1));
        assert(s.take(j as int).last() == s[j - 1]);
        j = j - 1;
    }
    proof {
        if j == 0 {
            assert(s.take(0).len() == 0);
        } else {
            assert(s.take(j as int).last() == s[j - 1]);
        }
        assert(mtime_insert_pos(s, xv) == j);
    }
    sorted.insert(j, x);
    assert(candidates_view(sorted@) =~= s.take(j as int).push(xv) + s.skip(j as int));
}

/// The cookie databases in the order to try them: `preferred` (the profiles `profiles.ini` marks
/// default) first, as found, then `rest` newest first.
pub fn cookie_db_order(preferred: Vec<String>, rest: Vec<(String, Option<i128>)>) -> (r: Vec<String>)
    ensures
        r@.map_values(|p: String| p@) == cookie_db_order_of(preferred@.map_values(|p: String| p@), candidates_view(rest@)),
{
    let ghost rv = candidates_view(rest@);
    let mut sorted: Vec<(String, Option<i128>)> = Vec::new();
    let mut i: usize = 0;
    assert(rv.take(0) =~= Seq::<Candidate>::empty());
    while i < rest.len()
        invariant
            0 <= i <= rest@.len(),
            rv == candidates_view(rest@),
            candidates_view(sorted@) == sort_by_mtime(rv.take(i as int)),
        decreases rest@.len() - i,
    {
        let x = (rest[i].0.clone(), rest[i].1);
        insert_by_mtime(&mut sorted, x);
        assert(rv.take(i + 1).drop_last() =~= rv.take(i as int));
        assert(rv.take(i + 1).last() == rv[i as int]);
        i = i + 1;
    }
    assert(rv.take(rest@.len() as int) =~= rv);
    let ghost sv = candidates_view(sorted@);
    let mut out = preferred;
    let ghost pv = out@.map_values(|p: String| p@);
    let mut k = sorted.len();
    while k > 0
        invariant
            0 <= k <= sorted@.len(),
            sv == candidates_view(sorted@),
            out@.map_values(|p: String| p@) == pv + sv.skip(k as int).reverse().map_values(|c: Candidate| c.0),
        decreases k,
    {
        let ghost before = out@;
        out.push(sorted[k - 1].0.clone());
        assert(sv.skip(k - 1).reverse() =~= sv.skip(k as int).reverse().push(sv[k - 1]));
        assert(out@.map_values(|p: String| p@) =~= before.map_values(|p: String| p@).push(sv[k - 1].0));
        assert(pv + sv.skip(k - 1).reverse().map_values(|c: Candidate| c.0)
            =~= (pv + sv.skip(k as int).reverse().map_values(|c: Candidate| c.0)).push(sv[k - 1].0));
        k = k - 1;
    }
    assert(sv.skip(0) =~= sv);
    out
}

/// Oldest first: no candidate is older than one before it.
pub open spec fn oldest_first(s: Seq<Candidate>) -> bool {
    forall|i: int, j: int| 0 <= i < j < s.len() ==> !mtime_lt(#[trigger] s[j].1, #[trigger] s[i].1)
}

proof fn lemma_mtime_order(a: Option<int>, b: Option<int>, c: Option<int>)
    ensures
        mtime_lt(a, b) ==> !mtime_lt(b, a),
        mtime_lt(a, b) && !mtime_lt(c, b) ==> mtime_lt(a, c),
        !mtime_lt(a, b) && !mtime_lt(b, c) ==> !mtime_lt(a, c),
{
}

proof fn lemma_insert_pos_splits(s: Seq<Candidate>, x: Candidate)
    ensures
        forall|k: int| mtime_insert_pos(s, x) <= k < s.len() ==> mtime_lt(x.1, #[trigger] s[k].1),
        mtime_insert_pos(s, x) > 0 ==> !mtime_lt(x.1, s[mtime_insert_pos(s, x) - 1].1),
    decreases s.len(),
{
    if s.len() != 0 && mtime_lt(x.1, s.last().1) {
        let p = s.drop_last();
        lemma_insert_pos_splits(p, x);
        lemma_mtime_insert_pos_bounds(p, x);
        assert forall|k: int| mtime_insert_pos(s, x) <= k < s.len() implies mtime_lt(x.1, #[trigger] s[k].1) by {
            if k < s.len() - 1 {
                assert(s[k] == p[k]);
            }
        }
        if mtime_insert_pos(s, x) > 0 {
            assert(s[mtime_insert_pos(s, x) - 1] == p[mtime_insert_pos(s, x) - 1]);
        }
    }
}

proof fn lemma_sort_by_mtime(s: Seq<Candidate>)
    ensures
        sort_by_mtime(s).len() == s.len(),
        oldest_first(sort_by_mtime(s)),
    decreases s.len(),
{
    if s.len() > 0 {
        let rest = sort_by_mtime(s.drop_last());
        lemma_sort_by_mtime(s.drop_last());
        let x = s.last();
        let p = mtime_insert_pos(rest, x);
        lemma_mtime_insert_pos_bounds(rest, x);
        lemma_insert_pos_splits(rest, x);
        let out = sort_by_mtime(s);
        assert(out == rest.take(p).push(x) + rest.skip(p));
        assert forall|i: int, j: int| 0 <= i < j < out.len() implies !mtime_lt(#[trigger] out[j].1, #[trigger] out[i].1) by {
            let oi = if i < p { rest[i] } else if i == p { x } else { rest[i - 1] };
            let oj = if j < p { rest[j] } else if j == p { x } else { rest[j - 1] };
            assert(out[i] == oi);
            assert(out[j] == oj);
            if i == p {
                lemma_mtime_order(x.1, rest[j - 1].1, x.1);
            } else if j == p {
                if i < p - 1 {
                    lemma_mtime_order(rest[i].1, rest[p - 1].1, x.1);
                    lemma_mtime_order(x.1, rest[i].1, rest[p - 1].1);
                }
            }
        }
    }
}

/// Cookie databases are tried in this order: the profiles `profiles.ini` marks default come first
/// as found, then every other database, newest first (an unknown modification time last).
pub proof fn law_cookie_db_order(preferred: Seq<Seq<char>>, rest: Seq<Candidate>)
    ensures
        cookie_db_order_of(preferred, rest).len() == preferred.len() + rest.len(),
        cookie_db_order_of(preferred, rest).take(preferred.len() as int) == preferred,
        forall|i: int, j: int| 0 <= i < j < rest.len() ==> !mtime_lt(
            #[trigger] sort_by_mtime(rest).reverse()[i].1, #[trigger] sort_by_mtime(rest).reverse()[j].1),
{
    lemma_sort_by_mtime(rest);
    let sorted = sort_by_mtime(rest);
    let order = cookie_db_order_of(preferred, rest);
    assert(order.take(preferred.len() as int) =~= preferred);
    assert forall|i: int, j: int| 0 <= i < j < rest.len() implies !mtime_lt(
        #[trigger] sorted.reverse()[i].1, #[trigger] sorted.reverse()[j].1) by {
        let n = rest.len() as int;
        assert(sorted.reverse()[i] == sorted[n - 1 - i]);
        assert(sorted.reverse()[j] == sorted[n - 1 - j]);
        assert(!mtime_lt(sorted[n - 1 - i].1, sorted[n - 1 - j].1));
    }
}

} // verus!
