use sheet_sync::fingerprint::digest;
use sheet_sync::state::{Classification, StateEntry, StateStore};
use sheet_sync::sync::{compare_hash, get_data};

const REGION_A: &[u8] = br#"{"sheets":[{"properties":{"sheetId":111,"title":"Region A"},"data":[{"rowData":[{"values":[{"formattedValue":"a"},{"formattedValue":"b"}]}]}]}]}"#;

const REGION_A_GROWN: &[u8] = br#"{"sheets":[{"properties":{"sheetId":111,"title":"Region A"},"data":[{"rowData":[{"values":[{"formattedValue":"a"},{"formattedValue":"b"}]},{"values":[{"formattedValue":"c"}]}]}]}]}"#;

fn at() -> String {
    "2020-05-01T10:00:00Z".to_string()
}

#[test]
fn insert_scenario() {
    let mut store = StateStore::load(None);
    assert_eq!(store.classify(111, &digest(REGION_A)), Classification::Unseen);
    let table = get_data(&mut store, REGION_A, 111, "Region A", at()).unwrap();
    let entry = store.get(111).unwrap();
    assert_eq!(entry.title, "Region A");
    assert_eq!(entry.fingerprint, digest(REGION_A));
    assert_eq!(entry.total_row, 1);
    assert_eq!(
        store.document().encode(),
        format!(
            r#"{{"111":{{"hash":"{}","title":"Region A","total_row":1}}}}"#,
            digest(REGION_A)
        )
    );
    assert_eq!(table.title(), "Region A");
    assert_eq!(table.rows(), &vec![vec!["a".to_string(), "b".to_string()]]);
    let snapshot = table.snapshot();
    assert_eq!(snapshot.get("title").unwrap().as_text().unwrap(), "Region A");
    assert_eq!(snapshot.get("rows").unwrap().encode(), r#"[["a","b"]]"#);
}

#[test]
fn update_scenario() {
    let mut store = StateStore::new();
    store.commit(111, "Region A".to_string(), "H1".to_string(), 1);
    store.commit(112, "Region B".to_string(), "H9".to_string(), 8);
    assert_eq!(store.classify(111, &digest(REGION_A_GROWN)), Classification::Changed);
    let table = get_data(&mut store, REGION_A_GROWN, 111, "Region A", at()).unwrap();
    let entry = store.get(111).unwrap();
    assert_eq!(entry.fingerprint, digest(REGION_A_GROWN));
    assert_ne!(entry.fingerprint, "H1");
    assert_eq!(entry.total_row, 2);
    assert_eq!(store.get(112).unwrap().fingerprint, "H9");
    assert_eq!(store.len(), 2);
    assert_eq!(
        table.last_updated().encode(),
        r#"{"sheet_id":111,"title":"Region A","updated_at":"2020-05-01T10:00:00Z"}"#
    );
    assert_eq!(table.total_row(), 2);
}

#[test]
fn skip_scenario() {
    let mut store = StateStore::new();
    store.commit(111, "Region A".to_string(), digest(REGION_A), 1);
    let before = store.document().encode();
    assert_eq!(store.classify(111, &digest(REGION_A)), Classification::Unchanged);
    assert!(get_data(&mut store, REGION_A, 111, "Region A renamed", at()).is_none());
    assert_eq!(store.document().encode(), before);
}

#[test]
fn a_second_run_on_the_same_payload_writes_nothing() {
    let mut store = StateStore::new();
    assert!(get_data(&mut store, REGION_A, 111, "Region A", at()).is_some());
    let after_first = store.document().encode();
    assert!(get_data(&mut store, REGION_A, 111, "Region A", at()).is_none());
    assert!(get_data(&mut store, REGION_A, 111, "Region A", "2021-01-01T00:00:00Z".to_string())
        .is_none());
    assert_eq!(store.document().encode(), after_first);
    let mut reloaded = StateStore::load(Some(after_first.as_bytes()));
    assert!(get_data(&mut reloaded, REGION_A, 111, "Region A", at()).is_none());
}

#[test]
fn compare_hash_reports_match_and_novelty() {
    let sha = digest(REGION_A);
    assert_eq!(compare_hash(REGION_A, None), (true, true, sha.clone()));
    let same = StateEntry { title: "t".to_string(), fingerprint: sha.clone(), total_row: 1 };
    assert_eq!(compare_hash(REGION_A, Some(&same)), (false, false, sha.clone()));
    let other = StateEntry { title: "t".to_string(), fingerprint: "H1".to_string(), total_row: 1 };
    assert_eq!(compare_hash(REGION_A, Some(&other)), (true, false, sha));
}

#[test]
fn plan_writes_the_state_document_last() {
    let source = sheet_sync::sources::Source { id: 111, title: "Region A".to_string() };
    let files = sheet_sync::sync::plan(&source, REGION_A, None, at()).unwrap();
    let names: Vec<&str> = files.iter().map(|f| f.name.as_str()).collect();
    assert_eq!(names, vec!["111.json", "last_updated.json", "data.json"]);
    let state = files[2].contents.clone();
    assert!(sheet_sync::sync::plan(&source, REGION_A, Some(state.as_bytes()), at()).is_none());
}

#[test]
fn compare_hash_gives_the_same_fingerprint_whatever_the_entry() {
    let a = StateEntry { title: "a".to_string(), fingerprint: "H1".to_string(), total_row: 1 };
    let b = StateEntry { title: "b".to_string(), fingerprint: digest(REGION_A), total_row: 9 };
    let with_none = compare_hash(REGION_A, None).2;
    assert_eq!(compare_hash(REGION_A, Some(&a)).2, with_none);
    assert_eq!(compare_hash(REGION_A, Some(&b)).2, with_none);
    assert_eq!(with_none.len(), 64);
    assert!(with_none.chars().all(|c| c.is_ascii_digit() || ('A'..='F').contains(&c)));
}
