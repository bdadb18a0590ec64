use sheet_sync::json::{field_of, get_value, get_value_at, item_of, items_of, Json};

fn text(s: &str) -> Json {
    Json::Text(s.to_string())
}

#[test]
fn decode_reads_an_object_in_key_order() {
    let doc = Json::decode(br#"{"b": [1, -2, 2.5, "x", null, true], "a": {"k": "v"}}"#).unwrap();
    match &doc {
        Json::Object(members) => {
            assert_eq!(members.len(), 2);
            assert_eq!(members[0].0, "a");
            assert_eq!(members[1].0, "b");
        }
        _ => panic!("an object was expected"),
    }
    let b = doc.get("b").unwrap();
    assert_eq!(b.at(0).unwrap().as_u64(), Some(1));
    assert!(matches!(b.at(1).unwrap(), Json::Number(None)));
    assert!(matches!(b.at(2).unwrap(), Json::Number(None)));
    assert_eq!(b.at(3).unwrap().as_text().map(|s| s.as_str()), Some("x"));
    assert!(matches!(b.at(4).unwrap(), Json::Null));
    assert_eq!(b.at(5).unwrap().as_bool(), Some(true));
    assert!(b.at(6).is_none());
    let k = doc.get("a").unwrap().get("k").unwrap();
    assert_eq!(k.as_text().map(|s| s.as_str()), Some("v"));
}

#[test]
fn decode_rejects_broken_text() {
    assert!(Json::decode(b"{\"a\": ").is_none());
    assert!(Json::decode(b"").is_none());
    assert!(Json::decode(b"[1] x").is_none());
}

#[test]
fn encode_writes_compact_text() {
    let doc = Json::Object(vec![
        ("title".to_string(), text("Region \"A\"")),
        ("n".to_string(), Json::Number(Some(7))),
        ("rows".to_string(), Json::Array(vec![Json::Array(vec![text("a"), text("")]), Json::Null])),
        ("ok".to_string(), Json::Bool(false)),
    ]);
    assert_eq!(
        doc.encode(),
        r#"{"n":7,"ok":false,"rows":[["a",""],null],"title":"Region \"A\""}"#
    );
}

#[test]
fn encode_writes_an_unheld_number_as_null() {
    assert_eq!(Json::Array(vec![Json::Number(None)]).encode(), "[null]");
}

#[test]
fn get_returns_the_first_member_of_a_name() {
    let doc = Json::Object(vec![
        ("k".to_string(), Json::Number(Some(1))),
        ("k".to_string(), Json::Number(Some(2))),
    ]);
    assert_eq!(doc.get("k").unwrap().as_u64(), Some(1));
    assert!(doc.get("other").is_none());
    assert!(Json::Null.get("k").is_none());
}

#[test]
fn get_value_falls_back_when_the_type_does_not_fit() {
    assert_eq!(get_value(&text("abc"), String::from("zz")), "abc");
    assert_eq!(get_value(&Json::Number(Some(3)), String::from("zz")), "zz");
    assert_eq!(get_value(&Json::Number(Some(3)), 9u64), 3);
    assert_eq!(get_value(&Json::Number(None), 9u64), 9);
    assert_eq!(get_value(&Json::Null, true), true);
    assert_eq!(get_value(&Json::Bool(false), true), false);
}

#[test]
fn deep_clone_copies_the_whole_tree() {
    let doc = Json::decode(br#"{"a":[1,{"b":[true,null,"x",-1]}],"c":{}}"#).unwrap();
    let copy = doc.deep_clone();
    assert_eq!(copy, doc);
    assert_eq!(copy.encode(), r#"{"a":[1,{"b":[true,null,"x",null]}],"c":{}}"#);
}

#[test]
fn decode_then_encode_keeps_text_and_unsigned_numbers() {
    let text = r#"{"array":[0,18446744073709551615,"é\"\\\n"],"nested":{"k":[[],{}]},"ok":true}"#;
    assert_eq!(Json::decode(text.as_bytes()).unwrap().encode(), text);
}

#[test]
fn paths_lead_to_null_where_nothing_is() {
    let doc = Json::decode(br#"{"data":[{"rowData":[1,2,3]}],"n":4}"#).unwrap();
    let rows = items_of(field_of(item_of(field_of(Some(&doc), "data"), 0), "rowData")).unwrap();
    assert_eq!(rows.len(), 3);
    assert!(item_of(field_of(Some(&doc), "data"), 1).is_none());
    assert!(field_of(field_of(Some(&doc), "n"), "deeper").is_none());
    assert!(items_of(field_of(Some(&doc), "n")).is_none());
    assert!(items_of(None).is_none());
    assert_eq!(get_value_at(field_of(Some(&doc), "n"), 0u64), 4);
    assert_eq!(get_value_at(field_of(Some(&doc), "missing"), 9u64), 9);
    assert_eq!(get_value_at(None, String::from("fallback")), "fallback");
}

#[test]
fn items_and_at_tell_arrays_from_the_rest() {
    let doc = Json::decode(br#"[10,[20]]"#).unwrap();
    assert_eq!(doc.items().unwrap().len(), 2);
    assert_eq!(doc.at(1).unwrap().at(0).unwrap().as_u64(), Some(20));
    assert!(doc.at(2).is_none());
    assert!(Json::Text("x".to_string()).items().is_none());
    assert!(Json::Text("x".to_string()).at(0).is_none());
    assert!(doc.as_text().is_none());
    assert_eq!(doc.as_u64(), None);
    assert_eq!(doc.as_bool(), None);
}

#[test]
fn read_gives_null_for_text_that_is_no_json() {
    assert_eq!(Json::read(b"{\"a\":1}"), Json::Object(vec![("a".to_string(), Json::Number(Some(1)))]));
    assert_eq!(Json::read(b"{\"a\":"), Json::Null);
    assert_eq!(Json::read(b""), Json::Null);
    assert_eq!(Json::read(b"null"), Json::Null);
}
