//! The mini player's placement: the remembered position as the settings store it, and whether a
//! point still lies on a connected display.
use vstd::prelude::*;

use crate::text::{chars_of, digit_char, int_text, i64_text, is_white_space, nat_digits, owned, push_str, string_of, trim, trimmed};

verus! {

/// The mini player window's label.
pub const LABEL: &'static str = "mini";
/// The setting that remembers where the widget was last dragged, as physical `"x,y"`.
pub const POS_KEY: &'static str = "mini_position";

// --- reading an integer ------------------------------------------------------------------------

/// All ASCII digits.
pub open spec fn all_digits(s: Seq<char>) -> bool {
    forall|i: int| 0 <= i < s.len() ==> '0' <= #[trigger] s[i] && s[i] <= '9'
}

/// The number ASCII digits spell.
pub open spec fn digits_value(s: Seq<char>) -> int
    decreases s.len(),
{
    if s.len() == 0 { 0 } else { digits_value(s.drop_last()) * 10 + (s.last() as int - '0' as int) }
}

/// `s` without a leading `+` or `-`.
pub open spec fn unsigned_part(s: Seq<char>) -> Seq<char> {
    if s.len() > 0 && (s[0] == '-' || s[0] == '+') { s.drop_first() } else { s }
}

/// `s.parse::<i32>()`: an optional `+` or `-`, then at least one ASCII digit and nothing else, in
/// the range of `i32`.
pub open spec fn parse_i32_of(s: Seq<char>) -> Option<int> {
    let neg = s.len() > 0 && s[0] == '-';
    let body = unsigned_part(s);
    let v = if neg { -digits_value(body) } else { digits_value(body) };
    if body.len() == 0 || !all_digits(body) || v < i32::MIN || v > i32::MAX { None } else { Some(v) }
}

proof fn lemma_digits_value_grows(s: Seq<char>, k: int)
    requires
        all_digits(s),
        0 <= k <= s.len(),
    ensures
        digits_value(s.take(k)) <= digits_value(s),
        0 <= digits_value(s),
    decreases s.len(),
{
    if s.len() > 0 {
        let p = s.drop_last();
        assert(all_digits(p)) by {
            assert forall|i: int| 0 <= i < p.len() implies '0' <= #[trigger] p[i] && p[i] <= '9' by {
                assert(p[i] == s[i]);
            }
        }
        assert(s[s.len() - 1] == s.last());
        if k == s.len() {
            assert(s.take(k) =~= s);
            lemma_digits_value_grows(p, 0);
        } else {
            assert(s.take(k) =~= p.take(k));
            lemma_digits_value_grows(p, k);
        }
    } else {
        assert(s.take(k) =~= s);
    }
}

/// Reads an `i32` the way `str::parse` does.
pub fn parse_i32(s: &str) -> (r: Option<i32>)
    ensures
        match r {
            Some(v) => parse_i32_of(s@) == Some(v as int),
            None => parse_i32_of(s@) is None,
        },
{
    let v = chars_of(s);
    let neg = v.len() > 0 && v[0] == '-';
    let start: usize = if v.len() > 0 && (v[0] == '-' || v[0] == '+') { 1 } else { 0 };
    let ghost body = unsigned_part(s@);
    assert(body =~= v@.skip(start as int));
    if start == v.len() {
        return None;
    }
    let mut acc: i64 = 0;
    let mut i = start;
    while i < v.len()
        invariant
            start <= i <= v@.len(),
            start < v@.len(),
            v@ == s@,
            body == unsigned_part(s@),
            neg == (s@.len() > 0 && s@[0] == '-'),
            body == v@.skip(start as int),
            all_digits(body.take(i - start)),
            acc == digits_value(body.take(i - start)),
            0 <= acc <= 2147483648,
        decreases v@.len() - i,
    {
        let c = v[i];
        assert(body[i - start] == c);
        if c < '0' || c > '9' {
            assert(!('0' <= body[i - start] && body[i - start] <= '9'));
            assert(!all_digits(body));
            return None;
        }
        let d = (c as u32 - '0' as u32) as i64;
        assert(body.take(i + 1 - start).drop_last() =~= body.take(i - start));
        assert(body.take(i + 1 - start).last() == c);
        assert(all_digits(body.take(i + 1 - start))) by {
            let t = body.take(i + 1 - start);
            assert forall|k: int| 0 <= k < t.len() implies '0' <= #[trigger] t[k] && t[k] <= '9' by {
                if k < t.len() - 1 {
                    assert(t[k] == body.take(i - start)[k]);
                }
            }
        }
        acc = acc * 10 + d;
        if acc > 2147483648 {
            proof {
                if all_digits(body) {
                    lemma_digits_value_grows(body, i + 1 - start);
                }
            }
            return None;
        }
        i = i + 1;
    }
    assert(body.take(v@.len() - start) =~= body);
    if neg {
        let n = -acc;
        if n < -2147483648 { None } else { Some(n as i32) }
    } else {
        if acc > 2147483647 { None } else { Some(acc as i32) }
    }
}

// --- the stored position -----------------------------------------------------------------------

/// How the position is stored: `"x,y"`.
pub open spec fn position_text_of(x: int, y: int) -> Seq<char> {
    int_text(x) + ","@ + int_text(y)
}

/// `"x,y"` in physical pixels, as closing the widget writes it.
pub fn position_text(x: i32, y: i32) -> (r: String)
    ensures
        r@ == position_text_of(x as int, y as int),
{
    let mut s = i64_text(x as i64);
    push_str(&mut s, ",");
    push_str(&mut s, i64_text(y as i64).as_str());
    s
}

/// Index of the first `,` in `s`, if any.
pub open spec fn first_comma(s: Seq<char>) -> Option<int> {
    if exists|i: int| 0 <= i < s.len() && s[i] == ',' {
        Some(choose|i: int| 0 <= i < s.len() && s[i] == ',' && forall|j: int| 0 <= j < i ==> s[j] != ',')
    } else {
        None
    }
}

/// The position a stored `"x,y"` names: split at the first comma, each side trimmed and read as
/// an `i32`.
pub open spec fn parse_pos_of(s: Seq<char>) -> Option<(int, int)> {
    match first_comma(s) {
        Some(i) => match (parse_i32_of(trimmed(s.take(i))), parse_i32_of(trimmed(s.skip(i + 1)))) {
            (Some(x), Some(y)) => Some((x, y)),
            _ => None,
        },
        None => None,
    }
}

/// Reads a stored `"x,y"` back.
pub fn parse_pos(s: &str) -> (r: Option<(i32, i32)>)
    ensures
        match r {
            Some(p) => parse_pos_of(s@) == Some((p.0 as int, p.1 as int)),
            None => parse_pos_of(s@) is None,
        },
{
    let v = chars_of(s);
    let mut i: usize = 0;
    while i < v.len() && v[i] != ','
        invariant
            0 <= i <= v@.len(),
            v@ == s@,
            forall|j: int| 0 <= j < i ==> v@[j] != ',',
        decreases v@.len() - i,
    {
        i = i + 1;
    }
    if i == v.len() {
        return None;
    }
    proof {
        let w = choose|k: int| 0 <= k < s@.len() && s@[k] == ',' && forall|j: int| 0 <= j < k ==> s@[j] != ',';
        if w < i {
            assert(v@[w] != ',');
        } else if w > i {
            assert(s@[i as int] == ',');
        }
        assert(first_comma(s@) == Some(i as int));
    }
    let left = string_of(&v, 0, i);
    let right = string_of(&v, i + 1, v.len());
    assert(left@ =~= s@.take(i as int));
    assert(right@ =~= s@.skip(i + 1));
    let x = parse_i32(trim(left.as_str()).as_str());
    let y = parse_i32(trim(right.as_str()).as_str());
    match (x, y) {
        (Some(x), Some(y)) => Some((x, y)),
        _ => None,
    }
}

proof fn lemma_digit_char(d: nat)
    requires
        d < 10,
    ensures
        (digit_char(d) as int) - ('0' as int) == d,
        '0' <= digit_char(d) && digit_char(d) <= '9',
{
}

proof fn lemma_nat_digits(n: nat)
    ensures
        nat_digits(n).len() > 0,
        all_digits(nat_digits(n)),
        digits_value(nat_digits(n)) == n,
    decreases n,
{
    let d = nat_digits(n);
    lemma_digit_char(n % 10);
    if n < 10 {
        assert(d =~= seq![digit_char(n)]);
        assert(d.drop_last() =~= Seq::<char>::empty());
        assert(digits_value(d.drop_last()) == 0);
    } else {
        lemma_nat_digits(n / 10);
        let p = nat_digits(n / 10);
        assert(d =~= p.push(digit_char(n % 10)));
        assert(d.drop_last() =~= p);
        assert(n == (n / 10) * 10 + n % 10);
        assert forall|i: int| 0 <= i < d.len() implies '0' <= #[trigger] d[i] && d[i] <= '9' by {
            if i < p.len() {
                assert(d[i] == p[i]);
            }
        }
    }
}

proof fn lemma_digits_plain(s: Seq<char>)
    requires
        all_digits(s),
    ensures
        forall|i: int| 0 <= i < s.len() ==> #[trigger] s[i] != ',' && !is_white_space(s[i]) && s[i] != '-' && s[i] != '+',
{
    assert forall|i: int| 0 <= i < s.len() implies #[trigger] s[i] != ',' && !is_white_space(s[i]) && s[i] != '-' && s[i] != '+' by {
        assert('0' <= s[i] && s[i] <= '9');
    }
}

proof fn lemma_int_text_reads_back(n: int)
    requires
        i32::MIN <= n <= i32::MAX,
    ensures
        trimmed(int_text(n)) == int_text(n),
        parse_i32_of(int_text(n)) == Some(n),
        forall|i: int| 0 <= i < int_text(n).len() ==> #[trigger] int_text(n)[i] != ',',
{
    let m: nat = if n < 0 { (-n) as nat } else { n as nat };
    lemma_nat_digits(m);
    let d = nat_digits(m);
    lemma_digits_plain(d);
    let t = int_text(n);
    if n < 0 {
        assert(t =~= seq!['-'] + d);
        assert(t.drop_first() =~= d);
        assert forall|i: int| 0 <= i < t.len() implies #[trigger] t[i] != ',' by {
            if i > 0 {
                assert(t[i] == d[i - 1]);
            }
        }
        assert(t.last() == d[d.len() - 1]);
        assert(!is_white_space(t[0]));
    } else {
        assert(t == d);
        assert(!is_white_space(d[0]));
    }
    assert(!is_white_space(d[d.len() - 1]));
    crate::text::lemma_trimmed_unchanged(t);
}

/// The stored position reads back as the point that was stored.
pub proof fn law_position_round_trip(x: i32, y: i32)
    ensures
        parse_pos_of(position_text_of(x as int, y as int)) == Some((x as int, y as int)),
{
    lemma_int_text_reads_back(x as int);
    lemma_int_text_reads_back(y as int);
    let a = int_text(x as int);
    let b = int_text(y as int);
    let s = position_text_of(x as int, y as int);
    reveal_strlit(",");
    assert(s =~= a + seq![','] + b);
    let i = a.len() as int;
    assert(s[i] == ',');
    assert forall|j: int| 0 <= j < i implies s[j] != ',' by {
        assert(s[j] == a[j]);
    }
    let w = choose|k: int| 0 <= k < s.len() && s[k] == ',' && forall|j: int| 0 <= j < k ==> s[j] != ',';
    if w > i {
        assert(s[i] != ',');
    } else if w < i {
        assert(s[w] == a[w]);
    }
    assert(first_comma(s) == Some(i));
    assert(s.take(i) =~= a);
    assert(s.skip(i + 1) =~= b);
}

// --- displays ----------------------------------------------------------------------------------

/// A display's rectangle, in physical pixels: top-left corner and size.
pub open spec fn rect_fits(origin: (i32, i32), size: (u32, u32)) -> bool {
    size.0 <= i32::MAX && size.1 <= i32::MAX && origin.0 + size.0 <= i32::MAX && origin.1 + size.1 <= i32::MAX
}

/// The point lies in the rectangle; right and bottom edges belong to the next display.
pub open spec fn in_rect(origin: (i32, i32), size: (u32, u32), p: (i32, i32)) -> bool {
    origin.0 <= p.0 < origin.0 + size.0 && origin.1 <= p.1 < origin.1 + size.1
}

/// Point in rectangle. A display left of or above the primary has a negative origin.
pub fn contains(origin: (i32, i32), size: (u32, u32), p: (i32, i32)) -> (r: bool)
    requires
        rect_fits(origin, size),
    ensures
        r == in_rect(origin, size, p),
{
    let right = origin.0 + size.0 as i32;
    let bottom = origin.1 + size.1 as i32;
    origin.0 <= p.0 && p.0 < right && origin.1 <= p.1 && p.1 < bottom
}

/// The point lies on one of the displays.
pub open spec fn on_a_display(displays: Seq<((i32, i32), (u32, u32))>, p: (i32, i32)) -> bool {
    exists|i: int| 0 <= i < displays.len() && in_rect(#[trigger] displays[i].0, displays[i].1, p)
}

/// Where the widget goes: the remembered position when it parses and still lies on a connected
/// display (one can be unplugged between sessions), else the fallback corner.
pub fn placement(saved: Option<&str>, displays: &Vec<((i32, i32), (u32, u32))>, fallback: Option<(i32, i32)>)
    -> (r: Option<(i32, i32)>)
    requires
        forall|i: int| 0 <= i < displays@.len() ==> rect_fits(#[trigger] displays@[i].0, displays@[i].1),
    ensures
        r == (match saved {
            Some(s) => match parse_pos_of(s@) {
                Some(p) => if on_a_display(displays@, (p.0 as i32, p.1 as i32)) { Some((p.0 as i32, p.1 as i32)) } else { fallback },
                None => fallback,
            },
            None => fallback,
        }),
{
    let p = match saved {
        Some(s) => match parse_pos(s) {
            Some(p) => p,
            None => return fallback,
        },
        None => return fallback,
    };
    let ghost text = match saved { Some(s) => s@, None => Seq::<char>::empty() };
    assert(saved is Some && parse_pos_of(text) == Some((p.0 as int, p.1 as int)));
    let mut i: usize = 0;
    while i < displays.len()
        invariant
            0 <= i <= displays@.len(),
            saved is Some,
            text == (match saved { Some(s) => s@, None => Seq::<char>::empty() }),
            parse_pos_of(text) == Some((p.0 as int, p.1 as int)),
            forall|k: int| 0 <= k < displays@.len() ==> rect_fits(#[trigger] displays@[k].0, displays@[k].1),
            forall|k: int| 0 <= k < i ==> !in_rect(#[trigger] displays@[k].0, displays@[k].1, p),
        decreases displays@.len() - i,
    {
        if contains(displays[i].0, displays[i].1, p) {
            assert((p.0 as int) as i32 == p.0 && (p.1 as int) as i32 == p.1);
            assert(on_a_display(displays@, p));
            return Some(p);
        }
        i = i + 1;
    }
    assert((p.0 as int) as i32 == p.0 && (p.1 as int) as i32 == p.1);
    fallback
}

} // verus!
