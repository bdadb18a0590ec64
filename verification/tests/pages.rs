use sheet_sync::error::Error;
use sheet_sync::json::Json;
use sheet_sync::pages::{internal_error, list, list_item, not_found};

#[test]
fn internal_error_text() {
    assert_eq!(internal_error(), "Whoops! Looks like we messed up.");
}

#[test]
fn not_found_names_the_address() {
    assert_eq!(not_found("/data/9.json"), "Couldn't find '/data/9.json'. Try something else?");
    assert_eq!(not_found(""), "Couldn't find ''. Try something else?");
}

#[test]
fn list_names_every_source_of_the_state_document() {
    let state = br#"{"111":{"title":"Region A","total_row":1,"hash":"H1"},
        "20":{"title":"Region B","total_row":30,"hash":"H2"}}"#;
    assert_eq!(
        list(state).unwrap().encode(),
        r#"[{"sheet_id":111,"title":"Region A","total_row":1},{"sheet_id":20,"title":"Region B","total_row":30}]"#
    );
    assert_eq!(list(b"{}").unwrap().encode(), "[]");
}

#[test]
fn list_copies_title_and_row_count_as_they_are() {
    let state = br#"{"5":{"title":["a",{"b":null}],"hash":"H"},"6":7}"#;
    assert_eq!(
        list(state).unwrap().encode(),
        r#"[{"sheet_id":5,"title":["a",{"b":null}],"total_row":null},{"sheet_id":6,"title":null,"total_row":null}]"#
    );
}

#[test]
fn list_fails_on_a_document_of_another_shape() {
    for state in [
        &b""[..],
        &b"[]"[..],
        &b"null"[..],
        &br#"{"111":{"title":"t"},"x":{"title":"u"}}"#[..],
        &br#"{"007":{}}"#[..],
        &br#"{"-1":{}}"#[..],
        &br#"{"18446744073709551616":{}}"#[..],
    ] {
        match list(state) {
            Err(e) => {
                assert!(matches!(e, Error::ProtocolError(_)));
                assert_eq!(e.to_string(), "failed to read the state document");
            }
            Ok(_) => panic!("no listing was expected"),
        }
    }
}

#[test]
fn list_item_of_an_entry() {
    let entry = Json::decode(br#"{"title":"T","total_row":3,"hash":"H"}"#).unwrap();
    assert_eq!(list_item(9, &entry).encode(), r#"{"sheet_id":9,"title":"T","total_row":3}"#);
}

#[test]
fn list_document_lists_a_decoded_state_document() {
    let state = Json::decode(br#"{"8":{"title":"T","total_row":2}}"#).unwrap();
    assert_eq!(
        sheet_sync::pages::list_document(&state).unwrap().encode(),
        r#"[{"sheet_id":8,"title":"T","total_row":2}]"#
    );
    assert!(sheet_sync::pages::list_document(&Json::Null).is_err());
}
