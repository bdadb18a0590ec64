use sheet_sync::json::Json;
use sheet_sync::table::{is_blank_row, normalize, parse_cell, parse_data, parse_row};

fn cells(row: &[&str]) -> Vec<String> {
    row.iter().map(|c| c.to_string()).collect()
}

fn at() -> String {
    "2020-05-01T10:00:00Z".to_string()
}

#[test]
fn normalize_reads_title_and_rows() {
    let payload = br#"{"sheets":[{"properties":{"sheetId":111,"title":"Region A"},
        "data":[{"rowData":[{"values":[{"formattedValue":"a"},{"formattedValue":"b"}]}]}]}]}"#;
    let table = normalize(payload, 111, at());
    assert_eq!(table.sheet_id(), 111);
    assert_eq!(table.title(), "Region A");
    assert_eq!(table.rows(), &vec![cells(&["a", "b"])]);
    assert_eq!(table.total_row(), 1);
    assert_eq!(table.updated_at(), "2020-05-01T10:00:00Z");
}

#[test]
fn normalize_drops_blank_rows_and_keeps_the_others_in_order() {
    let payload = br#"{"sheets":[{"properties":{"title":"T"},"data":[{"rowData":[
        {"values":[{"formattedValue":""},{"formattedValue":""},{"formattedValue":""}]},
        {"values":[{"formattedValue":"a"},{"formattedValue":""}]},
        {"values":[]},
        {},
        {"values":[{"userEnteredValue":1},{"formattedValue":"z"}]},
        {"values":[{"formattedValue":"a"},{"formattedValue":""}]}
    ]}]}]}"#;
    let table = normalize(payload, 5, at());
    assert_eq!(
        table.rows(),
        &vec![cells(&["a", ""]), cells(&["", "z"]), cells(&["a", ""])]
    );
    assert_eq!(table.total_row(), 3);
}

#[test]
fn normalize_without_a_title_gives_an_empty_title() {
    let payload = br#"{"sheets":[{"properties":{"sheetId":7},
        "data":[{"rowData":[{"values":[{"formattedValue":"x"}]}]}]}]}"#;
    let table = normalize(payload, 7, at());
    assert_eq!(table.title(), "");
    assert_eq!(table.rows(), &vec![cells(&["x"])]);
}

#[test]
fn normalize_of_a_title_of_another_type_gives_an_empty_title() {
    let payload = br#"{"sheets":[{"properties":{"title":12}}]}"#;
    let table = normalize(payload, 7, at());
    assert_eq!(table.title(), "");
    assert_eq!(table.total_row(), 0);
}

#[test]
fn normalize_never_fails() {
    for payload in [
        &b""[..],
        &b"not json"[..],
        &b"[]"[..],
        &b"{}"[..],
        &br#"{"sheets":[]}"#[..],
        &br#"{"sheets":{}}"#[..],
        &br#"{"sheets":[{"data":[]}]}"#[..],
        &br#"{"sheets":[{"data":[{"rowData":"x"}]}]}"#[..],
        &br#"{"sheets":[{"data":{"rowData":[]}}]}"#[..],
    ] {
        let table = normalize(payload, 1, at());
        assert_eq!(table.title(), "");
        assert_eq!(table.total_row(), 0);
        assert_eq!(table.sheet_id(), 1);
    }
}

#[test]
fn normalize_reads_the_first_sheet_and_the_first_data_block() {
    let payload = br#"{"sheets":[
        {"properties":{"title":"one"},"data":[
            {"rowData":[{"values":[{"formattedValue":"1"}]}]},
            {"rowData":[{"values":[{"formattedValue":"2"}]}]}]},
        {"properties":{"title":"two"},"data":[{"rowData":[{"values":[{"formattedValue":"3"}]}]}]}
    ]}"#;
    let table = normalize(payload, 1, at());
    assert_eq!(table.title(), "one");
    assert_eq!(table.rows(), &vec![cells(&["1"])]);
}

#[test]
fn parse_cell_takes_the_formatted_value_or_nothing() {
    let cell = Json::decode(br#"{"formattedValue":"12,5","effectiveValue":{"numberValue":12.5}}"#)
        .unwrap();
    assert_eq!(parse_cell(&cell), "12,5");
    let cell = Json::decode(br#"{"formattedValue":3}"#).unwrap();
    assert_eq!(parse_cell(&cell), "");
    assert_eq!(parse_cell(&Json::Null), "");
}

#[test]
fn parse_row_falls_back_to_no_cells() {
    assert_eq!(parse_row(&Json::Null), Vec::<String>::new());
    let row = Json::decode(br#"{"values":"none"}"#).unwrap();
    assert_eq!(parse_row(&row), Vec::<String>::new());
    let row = Json::decode(br#"{"values":[{"formattedValue":"a"},{},null]}"#).unwrap();
    assert_eq!(parse_row(&row), cells(&["a", "", ""]));
}

#[test]
fn a_row_is_blank_when_every_cell_is_empty() {
    assert!(is_blank_row(&cells(&["", "", ""])));
    assert!(is_blank_row(&cells(&[])));
    assert!(!is_blank_row(&cells(&["a", ""])));
    assert!(!is_blank_row(&cells(&["", " "])));
}

#[test]
fn parse_data_without_a_sheet_gives_an_empty_table() {
    let table = parse_data(None, 9, at());
    assert_eq!(table.sheet_id(), 9);
    assert_eq!(table.title(), "");
    assert_eq!(table.total_row(), 0);
}

#[test]
fn snapshot_lists_id_title_rows_and_time() {
    let payload = br#"{"sheets":[{"properties":{"sheetId":111,"title":"Region A"},
        "data":[{"rowData":[{"values":[{"formattedValue":"a"},{"formattedValue":"b"}]}]}]}]}"#;
    let table = normalize(payload, 111, at());
    assert_eq!(
        table.snapshot().encode(),
        r#"{"rows":[["a","b"]],"sheet_id":111,"title":"Region A","updated_at":"2020-05-01T10:00:00Z"}"#
    );
    assert_eq!(
        table.last_updated().encode(),
        r#"{"sheet_id":111,"title":"Region A","updated_at":"2020-05-01T10:00:00Z"}"#
    );
}

#[test]
fn normalize_document_reads_a_decoded_payload() {
    let payload = Json::decode(br#"{"sheets":[{"properties":{"title":"T"},
        "data":[{"rowData":[{"values":[{"formattedValue":"a"},{"formattedValue":""}]},
                            {"values":[{"formattedValue":""},{"formattedValue":""},{"formattedValue":""}]}]}]}]}"#)
        .unwrap();
    let table = sheet_sync::table::normalize_document(&payload, 3, at());
    assert_eq!(table.title(), "T");
    assert_eq!(table.rows(), &vec![cells(&["a", ""])]);
    let empty = sheet_sync::table::normalize_document(&Json::Null, 3, at());
    assert_eq!(empty.total_row(), 0);
}
