use serde_json::Value;
use yapel::json::{
    as_bool, as_i64, as_str, find_all, find_first, find_first_str, find_member_str, get_member, get_member_opt,
    pointer_index0, Json,
};

fn to_json(v: &Value) -> Json {
    match v {
        Value::Null => Json::Null,
        Value::Bool(b) => Json::Bool(*b),
        Value::Number(n) => match n.as_i64() {
            Some(i) => Json::Int(i),
            None => Json::OtherNumber(n.to_string()),
        },
        Value::String(s) => Json::Str(s.clone()),
        Value::Array(a) => Json::Array(a.iter().map(to_json).collect()),
        Value::Object(o) => Json::Object(o.iter().map(|(k, v)| (k.clone(), to_json(v))).collect()),
    }
}

fn parse(text: &str) -> Json {
    to_json(&serde_json::from_str::<Value>(text).unwrap())
}

fn strs(v: &[&Json]) -> Vec<String> {
    v.iter()
        .map(|j| match j {
            Json::Str(s) => s.clone(),
            Json::Int(n) => n.to_string(),
            _ => "?".to_string(),
        })
        .collect()
}

#[test]
fn find_all_walks_the_whole_tree_in_document_order() {
    let root = parse(r#"{ "a": { "id": "outer", "b": [ { "id": "first" }, { "c": { "id": "deep" } } ] }, "z": { "id": 7 } }"#);
    let found = find_all(&root, "id");
    // serde_json keeps an object's members sorted by key, so `b` comes before `id`.
    assert_eq!(strs(&found), vec!["first", "deep", "outer", "7"]);
    assert!(find_all(&root, "missing").is_empty());
    assert!(matches!(find_first(&root, "id"), Some(Json::Str(s)) if s == "first"));
}

#[test]
fn a_match_comes_before_what_lies_inside_it() {
    let root = parse(r#"{ "x": { "x": { "x": 1 } } }"#);
    assert_eq!(find_all(&root, "x").len(), 3);
    assert!(matches!(find_all(&root, "x")[2], Json::Int(1)));
}

#[test]
fn members_and_scalars() {
    let root = parse(r#"{ "s": "text", "n": 42, "b": true, "f": 1.5, "o": { "k": "v" } }"#);
    assert_eq!(as_str(get_member(&root, "s")).map(String::as_str), Some("text"));
    assert_eq!(as_i64(get_member(&root, "n")), Some(42));
    assert_eq!(as_i64(get_member(&root, "f")), None);
    assert_eq!(as_bool(get_member(&root, "b")), Some(true));
    assert_eq!(as_bool(get_member(&root, "s")), None);
    assert_eq!(as_str(get_member_opt(get_member(&root, "o"), "k")).map(String::as_str), Some("v"));
    assert!(get_member_opt(None, "k").is_none());
    assert!(get_member(&parse("[1, 2]"), "0").is_none());
}

#[test]
fn first_string_skips_other_values() {
    let root = parse(r#"{ "a": { "playlistId": 5 }, "b": { "playlistId": "PL1" }, "c": { "playlistId": "PL2" } }"#);
    assert_eq!(find_first_str(&root, "playlistId").as_deref(), Some("PL1"));
    assert_eq!(find_first_str(&root, "videoId"), None);
}

#[test]
fn member_strings_over_a_list() {
    let root = parse(r#"[ { "title": 3 }, { "title": "T" }, { "title": "U" } ]"#);
    let items: Vec<&Json> = match &root {
        Json::Array(a) => a.iter().collect(),
        _ => unreachable!(),
    };
    assert_eq!(find_member_str(&items, "title").as_deref(), Some("T"));
    assert_eq!(find_member_str(&items, "name"), None);
}

#[test]
fn pointer_zero_reads_arrays_and_objects() {
    let arr = parse(r#"[ "first", "second" ]"#);
    assert!(matches!(pointer_index0(Some(&arr)), Some(Json::Str(s)) if s == "first"));
    let obj = parse(r#"{ "0": "zero" }"#);
    assert!(matches!(pointer_index0(Some(&obj)), Some(Json::Str(s)) if s == "zero"));
    assert!(pointer_index0(Some(&parse("[]"))).is_none());
    assert!(pointer_index0(None).is_none());
}
