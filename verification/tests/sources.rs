use sheet_sync::error::{Error, ErrorKind};
use sheet_sync::json::Json;
use sheet_sync::sources::{get_sheets, read_source, sheet_data_request};

fn ids_and_titles(body: &[u8]) -> Vec<(u64, String)> {
    get_sheets(body).unwrap().into_iter().map(|s| (s.id, s.title)).collect()
}

#[test]
fn get_sheets_leaves_the_first_sheet_out() {
    let body = br#"{"spreadsheetId":"x","sheets":[
        {"properties":{"sheetId":0,"title":"index"}},
        {"properties":{"sheetId":111,"title":"Region A"}},
        {"properties":{"sheetId":20,"title":"Region B"}}]}"#;
    assert_eq!(
        ids_and_titles(body),
        vec![(111, "Region A".to_string()), (20, "Region B".to_string())]
    );
}

#[test]
fn get_sheets_passes_over_sheets_that_do_not_decode() {
    let body = br#"{"sheets":[
        {"properties":{"sheetId":0,"title":"index"}},
        {"properties":{"sheetId":"7","title":"text id"}},
        {"properties":{"sheetId":-3,"title":"negative id"}},
        {"properties":{"sheetId":1.5,"title":"fractional id"}},
        {"properties":{"sheetId":8}},
        {"properties":{"sheetId":9,"title":null}},
        {"properties":{"title":"no id"}},
        {},
        null,
        {"properties":{"sheetId":10,"title":"kept"}}]}"#;
    assert_eq!(ids_and_titles(body), vec![(10, "kept".to_string())]);
}

#[test]
fn get_sheets_of_few_sheets_is_empty() {
    assert!(ids_and_titles(br#"{"sheets":[]}"#).is_empty());
    assert!(ids_and_titles(br#"{"sheets":[{"properties":{"sheetId":1,"title":"only"}}]}"#)
        .is_empty());
    assert!(ids_and_titles(br#"{"sheets":null}"#).is_empty());
    assert!(ids_and_titles(br#"{"sheets":{"a":1}}"#).is_empty());
}

#[test]
fn get_sheets_fails_without_sheets() {
    for body in [&b"{}"[..], &br#"{"error":{"code":401}}"#[..], &b"[]"[..], &b"<html>"[..], &b""[..]] {
        match get_sheets(body) {
            Err(e) => {
                assert!(matches!(e, Error::ProtocolError(_)));
                assert_eq!(e.kind(), ErrorKind::Protocol);
                assert_eq!(e.to_string(), "failed to get sheets");
            }
            Ok(_) => panic!("the listing should fail"),
        }
    }
}

#[test]
fn read_source_needs_id_and_title() {
    let sheet = Json::decode(br#"{"properties":{"sheetId":4,"title":"T","index":2}}"#).unwrap();
    let source = read_source(&sheet).unwrap();
    assert_eq!((source.id, source.title.as_str()), (4, "T"));
    assert!(read_source(&Json::decode(br#"{"properties":{"sheetId":4}}"#).unwrap()).is_none());
    assert!(read_source(&Json::Null).is_none());
}

#[test]
fn sheet_data_request_asks_for_the_grid_of_one_sheet() {
    assert_eq!(
        sheet_data_request(111).encode(),
        r#"{"dataFilters":[{"gridRange":{"sheetId":111}}],"includeGridData":true}"#
    );
}

#[test]
fn list_sources_reads_a_decoded_answer() {
    let sheet = |id: u64, title: &str| {
        Json::Object(vec![(
            "properties".to_string(),
            Json::Object(vec![
                ("sheetId".to_string(), Json::Number(Some(id))),
                ("title".to_string(), Json::Text(title.to_string())),
            ]),
        )])
    };
    let answer = Json::Object(vec![(
        "sheets".to_string(),
        Json::Array(vec![sheet(0, "index"), sheet(3, "three"), Json::Null, sheet(4, "four")]),
    )]);
    let sources = sheet_sync::sources::list_sources(&answer).unwrap();
    assert_eq!(sources.len(), 2);
    assert_eq!((sources[0].id, sources[0].title.as_str()), (3, "three"));
    assert_eq!((sources[1].id, sources[1].title.as_str()), (4, "four"));
    assert!(sheet_sync::sources::list_sources(&Json::Null).is_err());
}

#[test]
fn get_sheet_data_hands_the_payload_on_unchanged() {
    let body = br#"{ "sheets" : [ {"properties":{"sheetId":4}} ] }"#.to_vec();
    assert_eq!(sheet_sync::sources::get_sheet_data(body.clone()).unwrap(), body);
    let empty = br#"{"sheets":[]}"#.to_vec();
    assert_eq!(sheet_sync::sources::get_sheet_data(empty.clone()).unwrap(), empty);
}

#[test]
fn get_sheet_data_refuses_an_answer_without_sheets() {
    for body in [
        &br#"{"error":{"code":403,"status":"PERMISSION_DENIED"}}"#[..],
        &br#"{"sheets":null}"#[..],
        &br#"{"sheets":{"0":{}}}"#[..],
        &b"[]"[..],
        &b"<html></html>"[..],
        &b""[..],
    ] {
        match sheet_sync::sources::get_sheet_data(body.to_vec()) {
            Err(e) => {
                assert_eq!(e.kind(), ErrorKind::Protocol);
                assert_eq!(e.to_string(), "failed to get sheets");
            }
            Ok(_) => panic!("the answer should be refused"),
        }
    }
}

#[test]
fn has_sheets_wants_an_array() {
    assert!(sheet_sync::sources::has_sheets(&Json::read(br#"{"sheets":[]}"#)));
    assert!(!sheet_sync::sources::has_sheets(&Json::read(br#"{"sheets":7}"#)));
    assert!(!sheet_sync::sources::has_sheets(&Json::Null));
}
