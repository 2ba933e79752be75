use core_data::json::Json;

fn text(s: &str) -> Json {
    Json::Text(s.to_string())
}

fn number(n: u64) -> Json {
    Json::Number(serde_json::Number::from(n))
}

fn object(entries: Vec<(&str, Json)>) -> Json {
    Json::Object(entries.into_iter().map(|(k, v)| (k.to_string(), v)).collect())
}

fn path(keys: &[&str]) -> Vec<String> {
    keys.iter().map(|k| k.to_string()).collect()
}

#[test]
fn kinds_of_documents() {
    assert!(Json::Null.is_null());
    assert!(!text("x").is_null());
    assert!(object(vec![]).is_object());
    assert!(!Json::Array(vec![]).is_object());
    assert_eq!(Json::Bool(true).as_bool(), Some(true));
    assert_eq!(Json::Bool(false).as_bool(), Some(false));
    assert_eq!(text("true").as_bool(), None);
    assert_eq!(Json::Null.as_bool(), None);
}

#[test]
fn get_finds_the_last_entry_of_a_key() {
    let doc = Json::Object(vec![
        ("a".to_string(), number(1)),
        ("b".to_string(), number(2)),
        ("a".to_string(), number(3)),
    ]);
    assert_eq!(doc.get(&"a".to_string()), Some(&number(3)));
    assert_eq!(doc.get(&"b".to_string()), Some(&number(2)));
    assert_eq!(doc.get(&"c".to_string()), None);
    assert_eq!(text("a").get(&"a".to_string()), None);
}

#[test]
fn duplicate_is_equal_and_apart() {
    let doc = object(vec![
        ("a", Json::Array(vec![number(1), text("x"), Json::Null, Json::Bool(true)])),
        ("b", object(vec![("c", number(2))])),
    ]);
    let copy = doc.duplicate();
    assert_eq!(copy, doc);
    assert_eq!(doc.clone(), doc);
    let (changed, _) = copy.write(&path(&["b", "c"]), 0, number(9));
    assert_ne!(changed, doc);
}

#[test]
fn write_hands_back_what_stood_there() {
    let doc = object(vec![("a", object(vec![("b", number(1))]))]);
    let (changed, former) = doc.write(&path(&["a", "b"]), 0, number(2));
    assert_eq!(former, number(1));
    assert_eq!(changed, object(vec![("a", object(vec![("b", number(2))]))]));
    let (changed, former) = changed.write(&path(&["a", "fresh"]), 0, text("x"));
    assert_eq!(former, Json::Null);
    assert_eq!(
        changed,
        object(vec![("a", object(vec![("b", number(2)), ("fresh", text("x"))]))])
    );
}

#[test]
fn write_starts_at_the_place_given() {
    let doc = object(vec![("a", number(1))]);
    let (changed, former) = doc.write(&path(&["ignored", "a"]), 1, number(2));
    assert_eq!(former, number(1));
    assert_eq!(changed, object(vec![("a", number(2))]));
    let (changed, former) = changed.write(&path(&["x"]), 1, number(3));
    assert_eq!(changed, number(3));
    assert_eq!(former, object(vec![("a", number(2))]));
}

#[test]
fn write_makes_a_fresh_object_of_what_is_none() {
    let (changed, former) = text("leaf").write(&path(&["a", "b"]), 0, number(1));
    assert_eq!(former, Json::Null);
    assert_eq!(changed, object(vec![("a", object(vec![("b", number(1))]))]));
    let (changed, _) = Json::Array(vec![number(1)]).write(&path(&["k"]), 0, number(1));
    assert_eq!(changed, object(vec![("k", number(1))]));
}

#[test]
fn write_changes_the_entry_that_counts() {
    let doc = Json::Object(vec![
        ("a".to_string(), number(1)),
        ("a".to_string(), number(2)),
    ]);
    let (changed, former) = doc.write(&path(&["a"]), 0, number(3));
    assert_eq!(former, number(2));
    assert_eq!(changed.get(&"a".to_string()), Some(&number(3)));
}

#[test]
fn restore_undoes_a_write_in_place() {
    let doc = object(vec![("a", object(vec![("b", number(1)), ("c", text("x"))]))]);
    let (changed, former) = doc.duplicate().write(&path(&["a", "b"]), 0, number(2));
    let restored = changed.restore(&path(&["a", "b"]), 0, former);
    assert_eq!(restored, doc);
}

#[test]
fn restore_leaves_alone_what_has_lost_its_way() {
    let doc = object(vec![("a", text("leaf"))]);
    assert_eq!(doc.duplicate().restore(&path(&["a", "b"]), 0, number(1)), doc);
    assert_eq!(doc.duplicate().restore(&path(&["x", "y"]), 0, number(1)), doc);
    assert_eq!(text("leaf").restore(&path(&["a"]), 0, number(1)), text("leaf"));
    // the last key may be missing: it is put back
    assert_eq!(
        doc.duplicate().restore(&path(&["b"]), 0, number(1)),
        object(vec![("a", text("leaf")), ("b", number(1))])
    );
}
