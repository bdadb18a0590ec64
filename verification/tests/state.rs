use sheet_sync::json::Json;
use sheet_sync::state::{entry_doc, entry_from, Classification, StateEntry, StateStore};

#[test]
fn a_new_store_is_empty() {
    let store = StateStore::new();
    assert_eq!(store.len(), 0);
    assert!(store.get(111).is_none());
    assert_eq!(store.document().encode(), "{}");
}

#[test]
fn classify_tells_unseen_changed_and_unchanged() {
    let mut store = StateStore::new();
    assert_eq!(store.classify(111, "H1"), Classification::Unseen);
    store.commit(111, "Region A".to_string(), "H1".to_string(), 4);
    assert_eq!(store.classify(111, "H1"), Classification::Unchanged);
    assert_eq!(store.classify(111, "H2"), Classification::Changed);
    assert_eq!(store.classify(112, "H1"), Classification::Unseen);
}

#[test]
fn commit_inserts_and_overwrites() {
    let mut store = StateStore::new();
    store.commit(111, "Region A".to_string(), "H1".to_string(), 4);
    store.commit(7, "Region B".to_string(), "H7".to_string(), 0);
    store.commit(111, "Region A2".to_string(), "H2".to_string(), 5);
    assert_eq!(store.len(), 2);
    let a = store.get(111).unwrap();
    assert_eq!(a.title, "Region A2");
    assert_eq!(a.fingerprint, "H2");
    assert_eq!(a.total_row, 5);
    let b = store.get(7).unwrap();
    assert_eq!(b.title, "Region B");
    assert_eq!(b.fingerprint, "H7");
    assert_eq!(b.total_row, 0);
    assert_eq!(store.key_at(0), "111");
    assert_eq!(store.key_at(1), "7");
    assert_eq!(store.entry_at(1).title, "Region B");
}

#[test]
fn keys_are_decimal_ids() {
    let mut store = StateStore::new();
    store.commit(0, "zero".to_string(), "H".to_string(), 0);
    store.commit(u64::MAX, "max".to_string(), "H".to_string(), 0);
    store.commit(1205, "n".to_string(), "H".to_string(), 0);
    assert_eq!(store.key_at(0), "0");
    assert_eq!(store.key_at(1), "18446744073709551615");
    assert_eq!(store.key_at(2), "1205");
}

#[test]
fn document_is_one_object_keyed_by_id() {
    let mut store = StateStore::new();
    store.commit(111, "Region A".to_string(), "H1".to_string(), 1);
    store.commit(20, "B".to_string(), "H2".to_string(), 3);
    assert_eq!(
        store.document().encode(),
        r#"{"111":{"hash":"H1","title":"Region A","total_row":1},"20":{"hash":"H2","title":"B","total_row":3}}"#
    );
}

#[test]
fn commit_then_load_gives_the_entries_back() {
    let mut store = StateStore::new();
    store.commit(111, "Region \"A\"".to_string(), "H1".to_string(), 1);
    store.commit(20, "B".to_string(), "H2".to_string(), 3);
    store.commit(111, "Region \"A\"".to_string(), "H3".to_string(), 2);
    let text = store.document().encode();
    let back = StateStore::load(Some(text.as_bytes()));
    assert_eq!(back.len(), 2);
    for id in [111u64, 20] {
        let was = store.get(id).unwrap();
        let is = back.get(id).unwrap();
        assert_eq!(is.title, was.title);
        assert_eq!(is.fingerprint, was.fingerprint);
        assert_eq!(is.total_row, was.total_row);
    }
    assert_eq!(back.classify(111, "H3"), Classification::Unchanged);
}

#[test]
fn load_degrades_to_an_empty_store() {
    assert_eq!(StateStore::load(None).len(), 0);
    assert_eq!(StateStore::load(Some(b"")).len(), 0);
    assert_eq!(StateStore::load(Some(b"{\"111\": ")).len(), 0);
    assert_eq!(StateStore::load(Some(b"[1,2]")).len(), 0);
    assert_eq!(StateStore::load(Some(b"\"text\"")).len(), 0);
}

#[test]
fn load_is_tolerant_of_entries_of_another_shape() {
    let store = StateStore::load(Some(
        br#"{"1":{"title":"t","hash":"H","total_row":2},"2":{"hash":5},"3":null,"x":{"hash":"K"}}"#,
    ));
    assert_eq!(store.len(), 4);
    assert_eq!(store.get(1).unwrap().total_row, 2);
    let two = store.get(2).unwrap();
    assert_eq!((two.title.as_str(), two.fingerprint.as_str(), two.total_row), ("", "", 0));
    assert_eq!(store.classify(2, "H"), Classification::Changed);
    assert_eq!(store.classify(3, ""), Classification::Unchanged);
    assert_eq!(store.classify(4, "K"), Classification::Unseen);
}

#[test]
fn from_document_takes_the_first_of_two_members_with_one_name() {
    let doc = Json::Object(vec![
        ("5".to_string(), entry_doc(&StateEntry {
            title: "first".to_string(),
            fingerprint: "H1".to_string(),
            total_row: 1,
        })),
        ("5".to_string(), entry_doc(&StateEntry {
            title: "second".to_string(),
            fingerprint: "H2".to_string(),
            total_row: 2,
        })),
    ]);
    let store = StateStore::from_document(&doc);
    assert_eq!(store.len(), 1);
    assert_eq!(store.get(5).unwrap().title, "first");
}

#[test]
fn an_entry_is_read_back_from_its_document() {
    let entry = StateEntry { title: "T".to_string(), fingerprint: "ABC".to_string(), total_row: 42 };
    let back = entry_from(&entry_doc(&entry));
    assert_eq!(back.title, "T");
    assert_eq!(back.fingerprint, "ABC");
    assert_eq!(back.total_row, 42);
    assert_eq!(entry_doc(&entry).encode(), r#"{"hash":"ABC","title":"T","total_row":42}"#);
}
