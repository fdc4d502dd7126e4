//! The JSON tree the response parsers walk, its mathematical model, and the tolerant lookups
//! they are built from: "every value stored under this key anywhere below", "this member",
//! "the first string of these".
use vstd::prelude::*;

use crate::text::str_eq;

verus! {

/// A JSON document as the parsers read it. Object members keep the order the document gave them.
#[derive(Debug)]
pub enum Json {
    Null,
    Bool(bool),
    Int(i64),
    /// A number that does not fit an `i64`, kept by its text.
    OtherNumber(String),
    Str(String),
    Array(Vec<Json>),
    Object(Vec<(String, Json)>),
}

/// The mathematical value of a JSON document.
pub enum JsonV {
    Null,
    Bool(bool),
    Int(int),
    OtherNumber(Seq<char>),
    Str(Seq<char>),
    Array(Seq<JsonV>),
    Object(Seq<(Seq<char>, JsonV)>),
}

pub open spec fn json_view(j: Json) -> JsonV
    decreases j,
{
    match j {
        Json::Null => JsonV::Null,
        Json::Bool(b) => JsonV::Bool(b),
        Json::Int(n) => JsonV::Int(n as int),
        Json::OtherNumber(s) => JsonV::OtherNumber(s@),
        Json::Str(s) => JsonV::Str(s@),
        Json::Array(items) => JsonV::Array(items_view(items@)),
        Json::Object(fields) => JsonV::Object(fields_view(fields@)),
    }
}

pub open spec fn items_view(items: Seq<Json>) -> Seq<JsonV>
    decreases items,
{
    if items.len() == 0 {
        Seq::empty()
    } else {
        seq![json_view(items[0])] + items_view(items.drop_first())
    }
}

pub open spec fn fields_view(fields: Seq<(String, Json)>) -> Seq<(Seq<char>, JsonV)>
    decreases fields,
{
    if fields.len() == 0 {
        Seq::empty()
    } else {
        seq![(fields[0].0@, json_view(fields[0].1))] + fields_view(fields.drop_first())
    }
}

impl View for Json {
    type V = JsonV;

    open spec fn view(&self) -> JsonV {
        json_view(*self)
    }
}

pub proof fn lemma_items_view(items: Seq<Json>)
    ensures
        items_view(items).len() == items.len(),
        forall|i: int| 0 <= i < items.len() ==> #[trigger] items_view(items)[i] == json_view(items[i]),
    decreases items.len(),
{
    if items.len() > 0 {
        lemma_items_view(items.drop_first());
        assert forall|i: int| 0 <= i < items.len() implies #[trigger] items_view(items)[i] == json_view(items[i]) by {
            if i > 0 {
                assert(items.drop_first()[i - 1] == items[i]);
            }
        }
    }
}

pub proof fn lemma_fields_view(fields: Seq<(String, Json)>)
    ensures
        fields_view(fields).len() == fields.len(),
        forall|i: int| 0 <= i < fields.len() ==> #[trigger] fields_view(fields)[i] == (fields[i].0@, json_view(fields[i].1)),
    decreases fields.len(),
{
    if fields.len() > 0 {
        lemma_fields_view(fields.drop_first());
        assert forall|i: int| 0 <= i < fields.len() implies #[trigger] fields_view(fields)[i] == (fields[i].0@, json_view(fields[i].1)) by {
            if i > 0 {
                assert(fields.drop_first()[i - 1] == fields[i]);
            }
        }
    }
}

/// Every value stored under `key`, anywhere in `j`, in document order. A match is listed before
/// whatever matches lie inside it.
pub open spec fn under(j: JsonV, key: Seq<char>) -> Seq<JsonV>
    decreases j,
{
    match j {
        JsonV::Array(items) => under_items(items, key),
        JsonV::Object(fields) => under_fields(fields, key),
        _ => Seq::empty(),
    }
}

pub open spec fn under_items(items: Seq<JsonV>, key: Seq<char>) -> Seq<JsonV>
    decreases items,
{
    if items.len() == 0 {
        Seq::empty()
    } else {
        under(items[0], key) + under_items(items.drop_first(), key)
    }
}

pub open spec fn under_fields(fields: Seq<(Seq<char>, JsonV)>, key: Seq<char>) -> Seq<JsonV>
    decreases fields,
{
    if fields.len() == 0 {
        Seq::empty()
    } else {
        (if fields[0].0 == key { seq![fields[0].1] } else { Seq::empty() }) + under(fields[0].1, key)
            + under_fields(fields.drop_first(), key)
    }
}

proof fn lemma_under_items_step(items: Seq<JsonV>, i: int, key: Seq<char>)
    requires
        0 <= i < items.len(),
    ensures
        under_items(items.take(i + 1), key) == under_items(items.take(i), key) + under(items[i], key),
    decreases i,
{
    if i == 0 {
        assert(items.take(1).drop_first() =~= Seq::<JsonV>::empty());
        assert(items.take(0) =~= Seq::<JsonV>::empty());
    } else {
        lemma_under_items_step(items.drop_first(), i - 1, key);
        assert(items.take(i + 1).drop_first() =~= items.drop_first().take(i));
        assert(items.take(i).drop_first() =~= items.drop_first().take(i - 1));
    }
}

proof fn lemma_under_fields_step(fields: Seq<(Seq<char>, JsonV)>, i: int, key: Seq<char>)
    requires
        0 <= i < fields.len(),
    ensures
        under_fields(fields.take(i + 1), key) == under_fields(fields.take(i), key)
            + (if fields[i].0 == key { seq![fields[i].1] } else { Seq::empty() }) + under(fields[i].1, key),
    decreases i,
{
    if i == 0 {
        assert(fields.take(1).drop_first() =~= Seq::<(Seq<char>, JsonV)>::empty());
        assert(fields.take(0) =~= Seq::<(Seq<char>, JsonV)>::empty());
    } else {
        lemma_under_fields_step(fields.drop_first(), i - 1, key);
        assert(fields.take(i + 1).drop_first() =~= fields.drop_first().take(i));
        assert(fields.take(i).drop_first() =~= fields.drop_first().take(i - 1));
    }
}

/// The values behind a list of references.
pub open spec fn views(s: Seq<&Json>) -> Seq<JsonV> {
    s.map_values(|r: &Json| r@)
}

pub open spec fn opt_view(o: Option<&Json>) -> Option<JsonV> {
    match o {
        Some(r) => Some(r@),
        None => None,
    }
}

fn collect_under<'a>(j: &'a Json, key: &str, out: &mut Vec<&'a Json>)
    ensures
        views(final(out)@) == views(old(out)@) + under(j@, key@),
    decreases j,
{
    match j {
        Json::Array(items) => {
            proof {
                lemma_items_view(items@);
            }
            let ghost vs = items_view(items@);
            let mut i: usize = 0;
            while i < items.len()
                invariant
                    0 <= i <= items@.len(),
                    *j == Json::Array(*items),
                    vs == items_view(items@),
                    vs.len() == items@.len(),
                    forall|k: int| 0 <= k < items@.len() ==> #[trigger] vs[k] == json_view(items@[k]),
                    views(out@) == views(old(out)@) + under_items(vs.take(i as int), key@),
                decreases items@.len() - i,
            {
                proof {
                    assert(decreases_to!(*j => (*j)->Array_0));
                    assert(decreases_to!(*items => items@));
                    assert(decreases_to!(items@ => items@[i as int]));
                    lemma_under_items_step(vs, i as int, key@);
                }
                collect_under(&items[i], key, out);
                i = i + 1;
            }
            assert(vs.take(items@.len() as int) =~= vs);
        },
        Json::Object(fields) => {
            proof {
                lemma_fields_view(fields@);
            }
            let ghost vs = fields_view(fields@);
            let mut i: usize = 0;
            while i < fields.len()
                invariant
                    0 <= i <= fields@.len(),
                    *j == Json::Object(*fields),
                    vs == fields_view(fields@),
                    vs.len() == fields@.len(),
                    forall|k: int| 0 <= k < fields@.len() ==> #[trigger] vs[k] == (fields@[k].0@, json_view(fields@[k].1)),
                    views(out@) == views(old(out)@) + under_fields(vs.take(i as int), key@),
                decreases fields@.len() - i,
            {
                let ghost before = out@;
                proof {
                    lemma_under_fields_step(vs, i as int, key@);
                }
                if str_eq(fields[i].0.as_str(), key) {
                    out.push(&fields[i].1);
                    assert(views(out@) =~= views(before).push(json_view(fields@[i as int].1)));
                }
                proof {
                    assert(decreases_to!(*j => (*j)->Object_0));
                    assert(decreases_to!(*fields => fields@));
                    assert(decreases_to!(fields@ => fields@[i as int]));
                    assert(decreases_to!(fields@[i as int] => fields@[i as int].1));
                }
                collect_under(&fields[i].1, key, out);
                i = i + 1;
            }
            assert(vs.take(fields@.len() as int) =~= vs);
        },
        _ => {},
    }
}

/// Every value stored under `key` anywhere in `root`, in document order.
pub fn find_all<'a>(root: &'a Json, key: &str) -> (r: Vec<&'a Json>)
    ensures
        views(r@) == under(root@, key@),
{
    let mut out: Vec<&'a Json> = Vec::new();
    collect_under(root, key, &mut out);
    assert(views(Seq::<&Json>::empty()) =~= Seq::<JsonV>::empty());
    assert(Seq::<JsonV>::empty() + under(root@, key@) =~= under(root@, key@));
    out
}

/// The first of `items`, if any.
pub open spec fn first_of(items: Seq<JsonV>) -> Option<JsonV> {
    if items.len() == 0 { None } else { Some(items[0]) }
}

/// The first value stored under `key` anywhere in `root`.
pub fn find_first<'a>(root: &'a Json, key: &str) -> (r: Option<&'a Json>)
    ensures
        opt_view(r) == first_of(under(root@, key@)),
{
    let all = find_all(root, key);
    if all.len() == 0 {
        None
    } else {
        assert(views(all@)[0] == all@[0]@);
        Some(all[0])
    }
}

/// The member `key` of an object (the first, should the object repeat it).
pub open spec fn member_of(fields: Seq<(Seq<char>, JsonV)>, key: Seq<char>) -> Option<JsonV>
    decreases fields.len(),
{
    if fields.len() == 0 {
        None
    } else if fields[0].0 == key {
        Some(fields[0].1)
    } else {
        member_of(fields.drop_first(), key)
    }
}

/// `value.get(key)`: the member `key` when `j` is an object, otherwise nothing.
pub open spec fn get(j: JsonV, key: Seq<char>) -> Option<JsonV> {
    match j {
        JsonV::Object(fields) => member_of(fields, key),
        _ => None,
    }
}

/// `get` on an optional value.
pub open spec fn get_opt(j: Option<JsonV>, key: Seq<char>) -> Option<JsonV> {
    match j {
        Some(v) => get(v, key),
        None => None,
    }
}

/// The value of `j` when it is a string.
pub open spec fn str_value(j: Option<JsonV>) -> Option<Seq<char>> {
    match j {
        Some(JsonV::Str(s)) => Some(s),
        _ => None,
    }
}

/// `j.get(key)`.
pub fn get_member<'a>(j: &'a Json, key: &str) -> (r: Option<&'a Json>)
    ensures
        opt_view(r) == get(j@, key@),
{
    match j {
        Json::Object(fields) => {
            proof {
                lemma_fields_view(fields@);
            }
            let ghost vs = fields_view(fields@);
            assert(vs.skip(0) =~= vs);
            let mut i: usize = 0;
            while i < fields.len()
                invariant
                    0 <= i <= fields@.len(),
                    j@ == JsonV::Object(vs),
                    vs == fields_view(fields@),
                    vs.len() == fields@.len(),
                    forall|k: int| 0 <= k < fields@.len() ==> #[trigger] vs[k] == (fields@[k].0@, json_view(fields@[k].1)),
                    member_of(vs, key@) == member_of(vs.skip(i as int), key@),
                decreases fields@.len() - i,
            {
                assert(vs.skip(i as int).drop_first() =~= vs.skip(i + 1));
                assert(vs.skip(i as int)[0] == vs[i as int]);
                if str_eq(fields[i].0.as_str(), key) {
                    return Some(&fields[i].1);
                }
                i = i + 1;
            }
            None
        },
        _ => None,
    }
}

/// `member.and_then(|m| m.get(key))`.
pub fn get_member_opt<'a>(j: Option<&'a Json>, key: &str) -> (r: Option<&'a Json>)
    ensures
        opt_view(r) == get_opt(opt_view(j), key@),
{
    match j {
        Some(v) => get_member(v, key),
        None => None,
    }
}

/// `value.as_str()`.
pub fn as_str<'a>(j: Option<&'a Json>) -> (r: Option<&'a String>)
    ensures
        match r {
            Some(s) => str_value(opt_view(j)) == Some(s@),
            None => str_value(opt_view(j)) is None,
        },
{
    match j {
        Some(Json::Str(s)) => Some(s),
        _ => None,
    }
}

/// `value.as_bool()`.
pub fn as_bool(j: Option<&Json>) -> (r: Option<bool>)
    ensures
        r == (match opt_view(j) {
            Some(JsonV::Bool(b)) => Some(b),
            _ => None::<bool>,
        }),
{
    match j {
        Some(Json::Bool(b)) => Some(*b),
        _ => None,
    }
}

/// `value.as_i64()`.
pub fn as_i64(j: Option<&Json>) -> (r: Option<i64>)
    ensures
        match r {
            Some(n) => opt_view(j) == Some(JsonV::Int(n as int)),
            None => !(opt_view(j) matches Some(JsonV::Int(_))),
        },
{
    match j {
        Some(Json::Int(n)) => Some(*n),
        _ => None,
    }
}

/// One step of a JSON pointer with the token `0`: an object's member `"0"`, an array's first
/// element.
pub open spec fn index0(j: Option<JsonV>) -> Option<JsonV> {
    match j {
        Some(JsonV::Object(fields)) => member_of(fields, seq!['0']),
        Some(JsonV::Array(items)) => if items.len() > 0 { Some(items[0]) } else { None },
        _ => None,
    }
}

pub fn pointer_index0<'a>(j: Option<&'a Json>) -> (r: Option<&'a Json>)
    ensures
        opt_view(r) == index0(opt_view(j)),
{
    match j {
        Some(v) => match v {
            Json::Object(_) => {
                let r = get_member(v, "0");
                proof {
                    reveal_strlit("0");
                    assert("0"@ =~= seq!['0']);
                }
                r
            },
            Json::Array(items) => {
                proof {
                    lemma_items_view(items@);
                }
                if items.len() > 0 {
                    Some(&items[0])
                } else {
                    None
                }
            },
            _ => None,
        },
        None => None,
    }
}

/// The first string among `items`.
pub open spec fn first_str(items: Seq<JsonV>) -> Option<Seq<char>>
    decreases items.len(),
{
    if items.len() == 0 {
        None
    } else if items[0] is Str {
        Some(items[0]->Str_0)
    } else {
        first_str(items.drop_first())
    }
}

/// The first string value stored under `key` anywhere in `root`.
pub open spec fn find_first_str_spec(root: JsonV, key: Seq<char>) -> Option<Seq<char>> {
    first_str(under(root, key))
}

/// The first string value stored under `key` anywhere in `root`.
pub fn find_first_str(root: &Json, key: &str) -> (r: Option<String>)
    ensures
        match r {
            Some(s) => find_first_str_spec(root@, key@) == Some(s@),
            None => find_first_str_spec(root@, key@) is None,
        },
{
    let all = find_all(root, key);
    let ghost vs = views(all@);
    assert(vs.skip(0) =~= vs);
    let mut i: usize = 0;
    while i < all.len()
        invariant
            0 <= i <= all@.len(),
            vs == views(all@),
            vs == under(root@, key@),
            first_str(vs) == first_str(vs.skip(i as int)),
        decreases all@.len() - i,
    {
        assert(vs.skip(i as int).drop_first() =~= vs.skip(i + 1));
        assert(vs.skip(i as int)[0] == all@[i as int]@);
        match all[i] {
            Json::Str(s) => {
                return Some(s.clone());
            },
            _ => {},
        }
        i = i + 1;
    }
    None
}

/// The first of `items` whose member `member` is a string, and that string.
pub open spec fn first_member_str(items: Seq<JsonV>, member: Seq<char>) -> Option<Seq<char>>
    decreases items.len(),
{
    if items.len() == 0 {
        None
    } else if str_value(get(items[0], member)) is Some {
        str_value(get(items[0], member))
    } else {
        first_member_str(items.drop_first(), member)
    }
}

/// The first of `items` whose member `member` is a string, and that string.
pub fn find_member_str(items: &Vec<&Json>, member: &str) -> (r: Option<String>)
    ensures
        match r {
            Some(s) => first_member_str(views(items@), member@) == Some(s@),
            None => first_member_str(views(items@), member@) is None,
        },
{
    let ghost vs = views(items@);
    assert(vs.skip(0) =~= vs);
    let mut i: usize = 0;
    while i < items.len()
        invariant
            0 <= i <= items@.len(),
            vs == views(items@),
            first_member_str(vs, member@) == first_member_str(vs.skip(i as int), member@),
        decreases items@.len() - i,
    {
        assert(vs.skip(i as int).drop_first() =~= vs.skip(i + 1));
        assert(vs.skip(i as int)[0] == items@[i as int]@);
        let m = get_member(items[i], member);
        match as_str(m) {
            Some(s) => {
                return Some(s.clone());
            },
            None => {},
        }
        i = i + 1;
    }
    None
}

} // verus!
