//! Change detection for one source: hash what was fetched, hold the hash against
//! the store, and only where the source is new or has changed normalize the
//! payload and commit.

use crate::assoc::as_map;
use crate::decimal::{decimal, to_decimal};
use crate::fingerprint::{fingerprint_of, hashable, is_hex_digit, HASH_LEN};
use crate::json::json_text;
use crate::sources::{Source, SourceView};
use crate::state::{
    bytes_of, classification, committed, document_from, key_of, lemma_loaded_pairs,
    lemma_put_pairs, loaded_from, loaded_pairs, put_pairs, state_document, Classification,
    EntryView, StateEntry, StateStore,
};
use crate::table::{
    last_updated_document, normalize, snapshot_document, table_of, DataSheets, TableView,
};
use vstd::prelude::*;
use vstd::string::StringExecFns;

verus! {

/// Hashes a payload and holds the hash against the entry that the store has for
/// the source, if it has one. Returns whether the payload differs from what was
/// recorded, whether the source is new, and the fingerprint: 64 characters, each
/// one of the digits `0-9A-F`, that depend on the payload alone.
pub fn compare_hash(payload: &[u8], entry: Option<&StateEntry>) -> (res: (bool, bool, String))
    requires
        hashable(payload@.len()),
    ensures
        res.2@ == fingerprint_of(payload@),
        res.2@.len() == 2 * HASH_LEN,
        forall|i: int| 0 <= i < 2 * HASH_LEN ==> is_hex_digit(#[trigger] res.2@[i]),
        res.1 == (entry is None),
        res.0 == match entry {
            Some(e) => e@.fingerprint != fingerprint_of(payload@),
            None => true,
        },
{
    let sha = crate::fingerprint::digest(payload);
    let (is_not_match, is_new) = match entry {
        Some(e) => {
            if e.fingerprint == sha {
                (false, false)
            } else {
                (true, false)
            }
        },
        None => (true, true),
    };
    (is_not_match, is_new, sha)
}

/// Whether a fetch has to be written: it has, unless it is unchanged.
pub open spec fn must_write(c: Classification) -> bool {
    c != Classification::Unchanged
}

/// Decides what the payload fetched for source `sheet_id` leads to.
///
/// Where the store has an entry for the source with the payload's fingerprint,
/// nothing happens: the result is `None` and the store stays as it is. Otherwise
/// the payload is normalized into the table that is returned, and the store
/// commits the source with `title`, the payload's fingerprint and the table's
/// row count.
pub fn get_data(
    store: &mut StateStore,
    payload: &[u8],
    sheet_id: u64,
    title: &str,
    updated_at: String,
) -> (res: Option<DataSheets>)
    requires
        hashable(payload@.len()),
    ensures
        match res {
            Some(table) => {
                &&& must_write(
                    classification(old(store)@, key_of(sheet_id), fingerprint_of(payload@)),
                )
                &&& table@ == table_of(payload@, sheet_id, updated_at@)
                &&& table@.wf()
                &&& final(store)@ == committed(
                    old(store)@,
                    key_of(sheet_id),
                    title@,
                    fingerprint_of(payload@),
                    table@.rows.len() as u64,
                )
                &&& final(store).pairs() == put_pairs(
                    old(store).pairs(),
                    key_of(sheet_id),
                    entry_for(title@, payload@, table@),
                )
            },
            None => {
                &&& !must_write(
                    classification(old(store)@, key_of(sheet_id), fingerprint_of(payload@)),
                )
                &&& final(store)@ == old(store)@
                &&& final(store).pairs() == old(store).pairs()
            },
        },
{
    let (is_not_match, _is_new, sha) = compare_hash(payload, store.get(sheet_id));
    if is_not_match {
        let table = normalize(payload, sheet_id, updated_at);
        let total_row = table.total_row() as u64;
        store.commit(sheet_id, String::from_str(title), sha, total_row);
        Some(table)
    } else {
        None
    }
}

/// The name of the file that holds the state document.
pub const STATE_FILE: &'static str = "data.json";

/// The name of the file that points to the source that changed last.
pub const LAST_UPDATED_FILE: &'static str = "last_updated.json";

/// A file to write as a mathematical value.
pub struct FileView {
    pub name: Seq<char>,
    pub contents: Seq<char>,
}

/// A file to write: its name in the data directory, and all of its new contents.
#[derive(Clone, Debug, PartialEq, Eq)]
pub struct FileWrite {
    pub name: String,
    pub contents: String,
}

impl View for FileWrite {
    type V = FileView;

    open spec fn view(&self) -> FileView {
        FileView { name: self.name@, contents: self.contents@ }
    }
}

/// The files that a list of files stands for, one for one.
pub open spec fn file_views(files: Seq<FileWrite>) -> Seq<FileView> {
    Seq::new(files.len(), |i: int| files[i]@)
}

/// The name of the snapshot file of source `id`.
pub open spec fn snapshot_file_name(id: u64) -> Seq<char> {
    decimal(id as nat) + ".json"@
}

/// The name of the snapshot file of source `id`.
pub fn snapshot_file(id: u64) -> (name: String)
    ensures
        name@ == snapshot_file_name(id),
{
    let mut name = to_decimal(id);
    name.append(".json");
    name
}

/// The files written for a source that is new or has changed, in the order in
/// which they are written: the snapshot of the source, the pointer to the
/// source that changed last, and the state document. Each is written whole.
///
/// The state document comes last. Where a file before it cannot be written, the
/// fingerprint on disk stays the old one, and the change is found again at the
/// next tick.
pub open spec fn files_for(pairs: Seq<(Seq<char>, EntryView)>, table: TableView) -> Seq<FileView> {
    seq![
        FileView {
            name: snapshot_file_name(table.sheet_id),
            contents: json_text(snapshot_document(table)),
        },
        FileView {
            name: "last_updated.json"@,
            contents: json_text(last_updated_document(table)),
        },
        FileView { name: "data.json"@, contents: json_text(state_document(pairs)) },
    ]
}

/// The files written for a source that is new or has changed.
pub fn write_files(store: &StateStore, table: &DataSheets) -> (files: Vec<FileWrite>)
    ensures
        file_views(files@) == files_for(store.pairs(), table@),
{
    let mut files: Vec<FileWrite> = Vec::new();
    files.push(
        FileWrite { name: snapshot_file(table.sheet_id()), contents: table.snapshot().encode() },
    );
    files.push(
        FileWrite {
            name: String::from_str(LAST_UPDATED_FILE),
            contents: table.last_updated().encode(),
        },
    );
    files.push(
        FileWrite { name: String::from_str(STATE_FILE), contents: store.document().encode() },
    );
    assert(file_views(files@) =~= files_for(store.pairs(), table@));
    files
}

/// The entry that is committed for a source whose payload was normalized into
/// `table`.
pub open spec fn entry_for(title: Seq<char>, payload: Seq<u8>, table: TableView) -> EntryView {
    EntryView {
        title,
        fingerprint: fingerprint_of(payload),
        total_row: table.rows.len() as u64,
    }
}

/// What the payload fetched for a source leads to, given the state document as
/// it was read from storage: nothing where the source is unchanged, else the
/// files to write.
pub open spec fn planned(
    source: SourceView,
    payload: Seq<u8>,
    state: Option<Seq<u8>>,
    updated_at: Seq<char>,
) -> Option<Seq<FileView>> {
    if must_write(classification(loaded_from(state), key_of(source.id), fingerprint_of(payload))) {
        let table = table_of(payload, source.id, updated_at);
        Some(
            files_for(
                put_pairs(
                    loaded_pairs(document_from(state)),
                    key_of(source.id),
                    entry_for(source.title, payload, table),
                ),
                table,
            ),
        )
    } else {
        None
    }
}

/// Decides what the payload fetched for `source` leads to. `state` is the state
/// document as read from storage, or `None` where it could not be read.
///
/// A source whose payload has the fingerprint that the state document records
/// for it leads to nothing: no file is written for it. Any other source leads
/// to three files: the snapshot of the source, the pointer to it, and last the
/// state document with the source committed.
pub fn plan(source: &Source, payload: &[u8], state: Option<&[u8]>, updated_at: String) -> (res:
    Option<Vec<FileWrite>>)
    requires
        hashable(payload@.len()),
    ensures
        match res {
            Some(files) => planned(source@, payload@, bytes_of(state), updated_at@) == Some(
                file_views(files@),
            ),
            None => planned(source@, payload@, bytes_of(state), updated_at@) is None,
        },
{
    let mut store = StateStore::load(state);
    match get_data(&mut store, payload, source.id, source.title.as_str(), updated_at) {
        Some(table) => Some(write_files(&store, &table)),
        None => None,
    }
}

/// A source whose payload has the fingerprint that the state document records
/// for it leads to no write, whenever it is fetched.
pub proof fn lemma_unchanged_payload_writes_nothing(
    source: SourceView,
    payload: Seq<u8>,
    state: Option<Seq<u8>>,
    at: Seq<char>,
)
    requires
        loaded_from(state).contains_key(key_of(source.id)),
        loaded_from(state)[key_of(source.id)].fingerprint == fingerprint_of(payload),
    ensures
        planned(source, payload, state, at) is None,
{
}

/// Two fetches of one payload in a row: where the state document that the
/// second run reads holds the entries that the first run wrote, the second run
/// writes nothing for the source. The order in which the document lists the
/// entries does not matter.
pub proof fn lemma_second_run_writes_nothing(
    source: SourceView,
    payload: Seq<u8>,
    first_state: Option<Seq<u8>>,
    second_state: Option<Seq<u8>>,
    first_at: Seq<char>,
    second_at: Seq<char>,
)
    requires
        planned(source, payload, first_state, first_at) is Some,
        loaded_from(second_state) == as_map(
            put_pairs(
                loaded_pairs(document_from(first_state)),
                key_of(source.id),
                entry_for(source.title, payload, table_of(payload, source.id, first_at)),
            ),
        ),
    ensures
        planned(source, payload, second_state, second_at) is None,
{
    let before = loaded_pairs(document_from(first_state));
    let entry = entry_for(source.title, payload, table_of(payload, source.id, first_at));
    lemma_loaded_pairs(document_from(first_state));
    lemma_put_pairs(before, key_of(source.id), entry);
}

} // verus!
