//! The state store: what was last seen of each source.
//!
//! The store maps a source id, written in decimal, to the title, fingerprint and
//! row count recorded when the source last changed. An entry is made when a
//! source is first seen and overwritten when its fingerprint changes; none is
//! ever removed. On disk the store is one JSON object, which is read and written
//! whole.

use crate::assoc::{
    as_map, distinct_names, first_of_each, lemma_as_map_len, lemma_first_of_each,
    lemma_first_of_each_distinct, lemma_lookup_found, lemma_lookup_none, lemma_lookup_push,
    lemma_lookup_skip, lemma_lookup_update, lookup,
};
use crate::decimal::{decimal, lemma_decimal_injective, to_decimal};
use crate::json::{document_of, get_value_at, Json, JsonValue};
use vstd::prelude::*;
use vstd::string::StringExecFns;

verus! {

/// What a fetch turned out to be, held against the store.
#[derive(Clone, Copy, Debug, PartialEq, Eq, Structural)]
pub enum Classification {
    /// The store has no entry for the source.
    Unseen,
    /// The store has an entry with another fingerprint.
    Changed,
    /// The store has an entry with this fingerprint.
    Unchanged,
}

/// A state entry as a mathematical value.
pub struct EntryView {
    pub title: Seq<char>,
    pub fingerprint: Seq<char>,
    pub total_row: u64,
}

/// What the store records of one source.
#[derive(Clone, Debug, PartialEq, Eq)]
pub struct StateEntry {
    pub title: String,
    pub fingerprint: String,
    pub total_row: u64,
}

impl View for StateEntry {
    type V = EntryView;

    open spec fn view(&self) -> EntryView {
        EntryView {
            title: self.title@,
            fingerprint: self.fingerprint@,
            total_row: self.total_row,
        }
    }
}

/// The name under which the entry of source `id` is kept.
pub open spec fn key_of(id: u64) -> Seq<char> {
    decimal(id as nat)
}

/// How a fetch with fingerprint `fingerprint` is classified against the entry
/// kept under `key`.
pub open spec fn classification(
    entries: Map<Seq<char>, EntryView>,
    key: Seq<char>,
    fingerprint: Seq<char>,
) -> Classification {
    if !entries.contains_key(key) {
        Classification::Unseen
    } else if entries[key].fingerprint == fingerprint {
        Classification::Unchanged
    } else {
        Classification::Changed
    }
}

/// The entries after a commit: the entry under `key` is made or overwritten,
/// every other entry stays.
pub open spec fn committed(
    entries: Map<Seq<char>, EntryView>,
    key: Seq<char>,
    title: Seq<char>,
    fingerprint: Seq<char>,
    total_row: u64,
) -> Map<Seq<char>, EntryView> {
    entries.insert(key, EntryView { title, fingerprint, total_row })
}

/// The JSON object written for one entry.
pub open spec fn entry_document(entry: EntryView) -> JsonValue {
    JsonValue::Object(
        seq![
            ("title"@, JsonValue::Text(entry.title)),
            ("total_row"@, JsonValue::Number(Some(entry.total_row))),
            ("hash"@, JsonValue::Text(entry.fingerprint)),
        ],
    )
}

/// The entry read from a JSON document. A member that is missing or of another
/// type counts as empty, or as zero.
pub open spec fn entry_of(doc: JsonValue) -> EntryView {
    EntryView {
        title: match doc.field("title"@).text() {
            Some(s) => s,
            None => Seq::empty(),
        },
        fingerprint: match doc.field("hash"@).text() {
            Some(s) => s,
            None => Seq::empty(),
        },
        total_row: match doc.field("total_row"@).unsigned() {
            Some(n) => n,
            None => 0,
        },
    }
}

/// The members written for a list of entries: one for each entry, named by its
/// key.
pub open spec fn written_members(pairs: Seq<(Seq<char>, EntryView)>) -> Seq<
    (Seq<char>, JsonValue),
> {
    pairs.map_values(|p: (Seq<char>, EntryView)| (p.0, entry_document(p.1)))
}

/// The entries read from a list of members: one for each member, under its
/// name.
pub open spec fn read_entries(fields: Seq<(Seq<char>, JsonValue)>) -> Seq<
    (Seq<char>, EntryView),
> {
    fields.map_values(|p: (Seq<char>, JsonValue)| (p.0, entry_of(p.1)))
}

/// The state document: one member for each entry, named by its key.
pub open spec fn state_document(pairs: Seq<(Seq<char>, EntryView)>) -> JsonValue {
    JsonValue::Object(written_members(pairs))
}

/// The entries read from a state document: one for each name of the object. A
/// document that is no object holds no entries.
pub open spec fn loaded(doc: JsonValue) -> Map<Seq<char>, EntryView> {
    match doc {
        JsonValue::Object(fields) => as_map(read_entries(fields)),
        _ => Map::empty(),
    }
}

/// The keys and entries read from a state document, in the order of the
/// document. Of two members with one name the first counts.
pub open spec fn loaded_pairs(doc: JsonValue) -> Seq<(Seq<char>, EntryView)> {
    match doc {
        JsonValue::Object(fields) => first_of_each(read_entries(fields)),
        _ => Seq::empty(),
    }
}

/// The state document that a run starts from, given what was read from storage:
/// `Null` where nothing could be read or decoded.
pub open spec fn document_from(text: Option<Seq<u8>>) -> JsonValue {
    match text {
        Some(t) => document_of(t),
        None => JsonValue::Null,
    }
}

/// The entries that a run starts from, given what was read from storage: those
/// of the document, or none where nothing could be read or decoded.
pub open spec fn loaded_from(text: Option<Seq<u8>>) -> Map<Seq<char>, EntryView> {
    loaded(document_from(text))
}

/// The bytes behind an optional slice.
pub open spec fn bytes_of(text: Option<&[u8]>) -> Option<Seq<u8>> {
    match text {
        Some(t) => Some(t@),
        None => None,
    }
}

/// A position in `pairs` at which the name `key` stands.
pub open spec fn position_of(pairs: Seq<(Seq<char>, EntryView)>, key: Seq<char>) -> int {
    choose|i: int| 0 <= i < pairs.len() && (#[trigger] pairs[i]).0 == key
}

/// The list after a commit: an entry kept under `key` is overwritten where it
/// stands, a new one comes last.
pub open spec fn put_pairs(
    pairs: Seq<(Seq<char>, EntryView)>,
    key: Seq<char>,
    entry: EntryView,
) -> Seq<(Seq<char>, EntryView)> {
    if lookup(pairs, key) is Some {
        pairs.update(position_of(pairs, key), (key, entry))
    } else {
        pairs.push((key, entry))
    }
}

/// The keys and entries that a list of records holds, in order.
pub open spec fn pairs_of(records: Seq<(String, StateEntry)>) -> Seq<(Seq<char>, EntryView)> {
    Seq::new(records.len(), |i: int| (records[i].0@, records[i].1@))
}

/// The state store. Its view is the mapping from key to entry.
#[derive(Debug)]
pub struct StateStore {
    records: Vec<(String, StateEntry)>,
}

impl View for StateStore {
    type V = Map<Seq<char>, EntryView>;

    open spec fn view(&self) -> Map<Seq<char>, EntryView> {
        as_map(self.pairs())
    }
}

impl StateStore {
    /// No key has two entries.
    #[verifier::type_invariant]
    spec fn inv(self) -> bool {
        distinct_names(pairs_of(self.records@))
    }

    /// The keys and entries of the store, in the order in which the keys were
    /// first committed.
    pub closed spec fn pairs(self) -> Seq<(Seq<char>, EntryView)> {
        pairs_of(self.records@)
    }

    /// The store without entries: what a first run starts from.
    pub fn new() -> (store: StateStore)
        ensures
            store.pairs() == Seq::<(Seq<char>, EntryView)>::empty(),
            store@ == Map::<Seq<char>, EntryView>::empty(),
    {
        let store = StateStore { records: Vec::new() };
        assert(store.pairs() =~= Seq::<(Seq<char>, EntryView)>::empty());
        assert(store@ =~= Map::<Seq<char>, EntryView>::empty());
        store
    }

    /// The position of the entry kept under `key`.
    fn find(&self, key: &String) -> (res: Option<usize>)
        ensures
            match res {
                Some(i) => i < self.pairs().len() && self.pairs()[i as int].0 == key@
                    && lookup(self.pairs(), key@) == Some(self.pairs()[i as int].1)
                    && forall|j: int| 0 <= j < i ==> (#[trigger] self.pairs()[j]).0 != key@,
                None => lookup(self.pairs(), key@) is None,
            },
    {
        let mut i: usize = 0;
        while i < self.records.len()
            invariant
                0 <= i <= self.records@.len(),
                forall|j: int| 0 <= j < i ==> (#[trigger] self.pairs()[j]).0 != key@,
            decreases self.records@.len() - i,
        {
            if self.records[i].0 == *key {
                proof {
                    lemma_lookup_skip(self.pairs(), key@, i as int);
                }
                return Some(i);
            }
            i += 1;
        }
        proof {
            lemma_lookup_skip(self.pairs(), key@, i as int);
        }
        None
    }

    /// The number of entries.
    pub fn len(&self) -> (n: usize)
        ensures
            n == self.pairs().len(),
            self@.dom().finite(),
            n == self@.dom().len(),
    {
        proof {
            use_type_invariant(self);
            lemma_as_map_len(self.pairs());
        }
        self.records.len()
    }

    /// The key of the entry at position `i`.
    pub fn key_at(&self, i: usize) -> (key: &String)
        requires
            i < self.pairs().len(),
        ensures
            key@ == self.pairs()[i as int].0,
    {
        &self.records[i].0
    }

    /// The entry at position `i`.
    pub fn entry_at(&self, i: usize) -> (entry: &StateEntry)
        requires
            i < self.pairs().len(),
        ensures
            entry@ == self.pairs()[i as int].1,
    {
        &self.records[i].1
    }

    /// The entry of source `id`.
    pub fn get(&self, id: u64) -> (res: Option<&StateEntry>)
        ensures
            match res {
                Some(entry) => self@.contains_key(key_of(id)) && self@[key_of(id)] == entry@,
                None => !self@.contains_key(key_of(id)),
            },
    {
        let key = to_decimal(id);
        match self.find(&key) {
            Some(i) => Some(&self.records[i].1),
            None => None,
        }
    }

    /// Classifies a fetch of source `id` with fingerprint `fingerprint`: unseen
    /// where the store has no entry for `id`, unchanged where it has one with
    /// this fingerprint, changed where it has one with another.
    pub fn classify(&self, id: u64, fingerprint: &str) -> (res: Classification)
        ensures
            res == classification(self@, key_of(id), fingerprint@),
    {
        match self.get(id) {
            None => Classification::Unseen,
            Some(entry) => {
                let given = String::from_str(fingerprint);
                if entry.fingerprint == given {
                    Classification::Unchanged
                } else {
                    Classification::Changed
                }
            },
        }
    }

    /// Makes or overwrites the entry kept under `key`.
    fn put(&mut self, key: String, entry: StateEntry)
        ensures
            final(self)@ == old(self)@.insert(key@, entry@),
            final(self).pairs() == put_pairs(old(self).pairs(), key@, entry@),
            final(self).pairs().len() == if old(self)@.contains_key(key@) {
                old(self).pairs().len()
            } else {
                old(self).pairs().len() + 1
            },
    {
        proof {
            use_type_invariant(&*self);
        }
        let ghost before = self.pairs();
        let ghost k = key@;
        let ghost e = entry@;
        let found = self.find(&key);
        let mut records: Vec<(String, StateEntry)> = Vec::new();
        core::mem::swap(&mut self.records, &mut records);
        assert(distinct_names(pairs_of(self.records@)));
        match found {
            Some(i) => {
                records.set(i, (key, entry));
                proof {
                    lemma_position_of(before, k, i as int);
                    assert(pairs_of(records@) =~= put_pairs(before, k, e));
                }
            },
            None => {
                records.push((key, entry));
                proof {
                    assert(pairs_of(records@) =~= put_pairs(before, k, e));
                }
            },
        }
        proof {
            lemma_put_pairs(before, k, e);
        }
        self.records = records;
    }

    /// Makes or overwrites the entry of source `id`. Every other entry stays. An
    /// entry that is overwritten keeps its place, a new one comes last.
    pub fn commit(&mut self, id: u64, title: String, fingerprint: String, total_row: u64)
        ensures
            final(self)@ == committed(old(self)@, key_of(id), title@, fingerprint@, total_row),
            final(self).pairs() == put_pairs(
                old(self).pairs(),
                key_of(id),
                EntryView { title: title@, fingerprint: fingerprint@, total_row },
            ),
            final(self).pairs().len() == if old(self)@.contains_key(key_of(id)) {
                old(self).pairs().len()
            } else {
                old(self).pairs().len() + 1
            },
    {
        let key = to_decimal(id);
        self.put(key, StateEntry { title, fingerprint, total_row });
    }

    /// The state document: the store as one JSON object. Reading the document
    /// gives back the entries of the store, each under its key and in order.
    pub fn document(&self) -> (doc: Json)
        ensures
            doc@ == state_document(self.pairs()),
            distinct_names(self.pairs()),
            loaded(doc@) == self@,
            loaded_pairs(doc@) == self.pairs(),
    {
        proof {
            use_type_invariant(self);
            lemma_document_round_trip(self.pairs());
            lemma_document_round_trip_in_order(self.pairs());
        }
        let mut fields: Vec<(String, Json)> = Vec::new();
        let mut i: usize = 0;
        while i < self.records.len()
            invariant
                0 <= i <= self.records@.len(),
                fields@.len() == i,
                forall|j: int|
                    0 <= j < i ==> (#[trigger] fields@[j]).0@ == self.pairs()[j].0 && fields@[j].1@
                        == entry_document(self.pairs()[j].1),
            decreases self.records@.len() - i,
        {
            let key = self.records[i].0.clone();
            let doc = entry_doc(&self.records[i].1);
            fields.push((key, doc));
            i += 1;
        }
        let doc = Json::Object(fields);
        proof {
            doc.lemma_object_view();
            assert(doc@->Object_0 =~= state_document(self.pairs())->Object_0);
        }
        doc
    }

    /// Reads the store from a state document. Of two members with one name the
    /// first counts.
    pub fn from_document(doc: &Json) -> (store: StateStore)
        ensures
            store@ == loaded(doc@),
            store.pairs() == loaded_pairs(doc@),
    {
        let mut store = StateStore::new();
        match doc {
            Json::Object(fields) => {
                let ghost members = doc@->Object_0;
                let ghost entries = read_entries(members);
                proof {
                    doc.lemma_object_view();
                    assert(entries.take(0) =~= Seq::empty());
                }
                let mut i: usize = 0;
                while i < fields.len()
                    invariant
                        0 <= i <= fields@.len(),
                        doc@ == JsonValue::Object(members),
                        members.len() == fields@.len(),
                        forall|j: int|
                            0 <= j < fields@.len() ==> #[trigger] members[j] == (
                                fields@[j].0@,
                                fields@[j].1@,
                            ),
                        entries == read_entries(members),
                        store.pairs() == first_of_each(entries.take(i as int)),
                    decreases fields@.len() - i,
                {
                    let key = fields[i].0.clone();
                    let entry = entry_from(&fields[i].1);
                    let ghost before = store.pairs();
                    let ghost k = key@;
                    let ghost e = entry@;
                    proof {
                        assert(members[i as int] == (fields@[i as int].0@, fields@[i as int].1@));
                        assert(entries[i as int] == (k, e));
                        assert(entries.take(i + 1).drop_last() =~= entries.take(i as int));
                        assert(entries.take(i + 1).last() == (k, e));
                    }
                    if store.find(&key).is_none() {
                        store.put(key, entry);
                    }
                    i += 1;
                }
                proof {
                    assert(entries.take(i as int) =~= entries);
                    lemma_first_of_each(entries);
                }
            },
            _ => {},
        }
        store
    }

    /// The store that a run starts from. `text` is the state document as read
    /// from storage, or `None` where it could not be read; where it is missing
    /// or cannot be decoded the store is empty.
    pub fn load(text: Option<&[u8]>) -> (store: StateStore)
        ensures
            store@ == loaded_from(bytes_of(text)),
            store.pairs() == loaded_pairs(document_from(bytes_of(text))),
    {
        match text {
            Some(t) => StateStore::from_document(&Json::read(t)),
            None => StateStore::new(),
        }
    }
}

/// The JSON object written for one entry.
pub fn entry_doc(entry: &StateEntry) -> (doc: Json)
    ensures
        doc@ == entry_document(entry@),
{
    let mut fields: Vec<(String, Json)> = Vec::new();
    fields.push((String::from_str("title"), Json::Text(entry.title.clone())));
    fields.push((String::from_str("total_row"), Json::Number(Some(entry.total_row))));
    fields.push((String::from_str("hash"), Json::Text(entry.fingerprint.clone())));
    let doc = Json::Object(fields);
    proof {
        doc.lemma_object_view();
        assert(doc@->Object_0 =~= entry_document(entry@)->Object_0);
    }
    doc
}

/// The entry read from a JSON document, whatever the document holds.
pub fn entry_from(doc: &Json) -> (entry: StateEntry)
    ensures
        entry@ == entry_of(doc@),
{
    let title = get_value_at(doc.get("title"), String::new());
    let fingerprint = get_value_at(doc.get("hash"), String::new());
    let total_row = get_value_at(doc.get("total_row"), 0u64);
    StateEntry { title, fingerprint, total_row }
}

/// Where no name occurs twice, a name stands at one position only.
pub proof fn lemma_position_of(pairs: Seq<(Seq<char>, EntryView)>, key: Seq<char>, i: int)
    requires
        distinct_names(pairs),
        0 <= i < pairs.len(),
        pairs[i].0 == key,
    ensures
        position_of(pairs, key) == i,
{
    let c = position_of(pairs, key);
    if c < i {
        assert(pairs[c].0 != pairs[i].0);
    } else if i < c {
        assert(pairs[i].0 != pairs[c].0);
    }
}

/// The list after a commit stands for the mapping after the commit, and its
/// names stay distinct.
pub proof fn lemma_put_pairs(pairs: Seq<(Seq<char>, EntryView)>, key: Seq<char>, entry: EntryView)
    requires
        distinct_names(pairs),
    ensures
        as_map(put_pairs(pairs, key, entry)) == as_map(pairs).insert(key, entry),
        distinct_names(put_pairs(pairs, key, entry)),
        put_pairs(pairs, key, entry).len() == if as_map(pairs).contains_key(key) {
            pairs.len()
        } else {
            pairs.len() + 1
        },
{
    let after = put_pairs(pairs, key, entry);
    if lookup(pairs, key) is Some {
        let i = lemma_lookup_found(pairs, key);
        lemma_position_of(pairs, key, i);
        assert forall|name: Seq<char>|
            #![trigger lookup(after, name)]
            lookup(after, name) == if name == key {
                Some(entry)
            } else {
                lookup(pairs, name)
            } by {
            lemma_lookup_update(pairs, i, entry, name);
        }
        assert forall|a: int, b: int| 0 <= a < b < after.len() implies (#[trigger] after[a]).0 != (
        #[trigger] after[b]).0 by {
            assert(pairs[a].0 != pairs[b].0);
        }
    } else {
        assert forall|name: Seq<char>|
            #![trigger lookup(after, name)]
            lookup(after, name) == match lookup(pairs, name) {
                Some(v) => Some(v),
                None => if key == name {
                    Some(entry)
                } else {
                    None
                },
            } by {
            lemma_lookup_push(pairs, key, entry, name);
        }
        lemma_lookup_none(pairs, key);
        assert forall|a: int, b: int| 0 <= a < b < after.len() implies (#[trigger] after[a]).0 != (
        #[trigger] after[b]).0 by {
            if b < pairs.len() {
                assert(pairs[a].0 != pairs[b].0);
            } else {
                assert(pairs[a].0 != key);
            }
        }
    }
    assert(as_map(after) =~= as_map(pairs).insert(key, entry));
}

/// The list read from a state document stands for the entries read from it, and
/// no key occurs twice in it.
pub proof fn lemma_loaded_pairs(doc: JsonValue)
    ensures
        as_map(loaded_pairs(doc)) == loaded(doc),
        distinct_names(loaded_pairs(doc)),
{
    match doc {
        JsonValue::Object(fields) => {
            lemma_first_of_each(read_entries(fields));
        },
        _ => {
            assert(as_map(loaded_pairs(doc)) =~= loaded(doc));
        },
    }
}

/// Two source ids are kept under two keys.
pub proof fn lemma_key_of_injective(a: u64, b: u64)
    requires
        key_of(a) == key_of(b),
    ensures
        a == b,
{
    lemma_decimal_injective(a as nat, b as nat);
}

/// After a commit the store holds what was committed for the source, and what it
/// held before for every other source.
pub proof fn lemma_commit_then_get(
    entries: Map<Seq<char>, EntryView>,
    id: u64,
    title: Seq<char>,
    fingerprint: Seq<char>,
    total_row: u64,
    other: u64,
)
    ensures
        committed(entries, key_of(id), title, fingerprint, total_row).contains_key(key_of(id)),
        committed(entries, key_of(id), title, fingerprint, total_row)[key_of(id)] == (EntryView {
            title,
            fingerprint,
            total_row,
        }),
        other != id ==> committed(entries, key_of(id), title, fingerprint, total_row).contains_key(
            key_of(other),
        ) == entries.contains_key(key_of(other)),
        other != id && entries.contains_key(key_of(other)) ==> committed(
            entries,
            key_of(id),
            title,
            fingerprint,
            total_row,
        )[key_of(other)] == entries[key_of(other)],
{
    if other != id && key_of(other) == key_of(id) {
        lemma_key_of_injective(other, id);
    }
}

/// A fetch that brings the fingerprint that was committed last is classified as
/// unchanged, and committing it once more changes nothing.
pub proof fn lemma_commit_then_unchanged(
    entries: Map<Seq<char>, EntryView>,
    id: u64,
    title: Seq<char>,
    fingerprint: Seq<char>,
    total_row: u64,
)
    ensures
        classification(
            committed(entries, key_of(id), title, fingerprint, total_row),
            key_of(id),
            fingerprint,
        ) == Classification::Unchanged,
        committed(
            committed(entries, key_of(id), title, fingerprint, total_row),
            key_of(id),
            title,
            fingerprint,
            total_row,
        ) == committed(entries, key_of(id), title, fingerprint, total_row),
{
    let once = committed(entries, key_of(id), title, fingerprint, total_row);
    assert(committed(once, key_of(id), title, fingerprint, total_row) =~= once);
}

/// A commit never removes an entry.
pub proof fn lemma_commit_keeps_entries(
    entries: Map<Seq<char>, EntryView>,
    key: Seq<char>,
    title: Seq<char>,
    fingerprint: Seq<char>,
    total_row: u64,
)
    ensures
        entries.dom().subset_of(committed(entries, key, title, fingerprint, total_row).dom()),
{
}

/// An entry is read back from its document as it was written.
pub proof fn lemma_entry_round_trip(entry: EntryView)
    ensures
        entry_of(entry_document(entry)) == entry,
{
    reveal_strlit("title");
    reveal_strlit("total_row");
    reveal_strlit("hash");
    let fields = entry_document(entry)->Object_0;
    assert("title"@ != "hash"@) by {
        assert("title"@.len() != "hash"@.len());
    }
    assert("title"@ != "total_row"@) by {
        assert("title"@.len() != "total_row"@.len());
    }
    assert("total_row"@ != "hash"@) by {
        assert("total_row"@.len() != "hash"@.len());
    }
    lemma_lookup_skip(fields, "title"@, 0);
    lemma_lookup_skip(fields, "total_row"@, 1);
    lemma_lookup_skip(fields, "hash"@, 2);
}

/// The members written for a list of entries are read back as that list.
pub proof fn lemma_entries_round_trip(pairs: Seq<(Seq<char>, EntryView)>)
    ensures
        read_entries(written_members(pairs)) == pairs,
{
    let back = read_entries(written_members(pairs));
    assert(back =~= pairs) by {
        assert forall|i: int| 0 <= i < pairs.len() implies back[i] == pairs[i] by {
            lemma_entry_round_trip(pairs[i].1);
        }
    }
}

/// Reading the state document gives back the entries that were written into it:
/// every key with its title, fingerprint and row count, and no other key.
pub proof fn lemma_document_round_trip(pairs: Seq<(Seq<char>, EntryView)>)
    ensures
        loaded(state_document(pairs)) == as_map(pairs),
{
    lemma_entries_round_trip(pairs);
}

/// Reading the state document gives the entries back in the order in which they
/// were written, where no key was written twice.
pub proof fn lemma_document_round_trip_in_order(pairs: Seq<(Seq<char>, EntryView)>)
    requires
        distinct_names(pairs),
    ensures
        loaded_pairs(state_document(pairs)) == pairs,
{
    lemma_entries_round_trip(pairs);
    lemma_first_of_each_distinct(pairs);
}

/// What a store writes as its document, a store reads as its own entries.
pub proof fn lemma_store_round_trip(store: StateStore)
    ensures
        loaded(state_document(store.pairs())) == store@,
{
    lemma_document_round_trip(store.pairs());
}

} // verus!
