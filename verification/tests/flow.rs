use sheet_sync::sources::{get_sheet_data, get_sheets};
use sheet_sync::token::refresh_token;

#[test]
fn test_all() {
    let access_token = refresh_token(br#"{"access_token":"tok","expires_in":3599}"#).unwrap();
    assert_eq!(access_token, "tok");
    get_sheets(br#"{"sheets":[{"properties":{"sheetId":0,"title":"index"}}]}"#).unwrap();
    let res = get_sheet_data(
        br#"{"sheets":[{"properties":{"sheetId":0,"title":"index"},"data":[{"rowData":[]}]}]}"#
            .to_vec(),
    );
    assert!(res.is_ok());
}
