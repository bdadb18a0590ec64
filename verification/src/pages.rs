//! What the snapshot file server answers beside the files themselves: the
//! listing of the mirrored sources, and the texts of its error pages.

use crate::decimal::{from_decimal, parse_u64};
use crate::error::{Error, ErrorKind, ErrorView};
use crate::json::{document_of, Json, JsonValue};
use vstd::prelude::*;
use vstd::string::StringExecFns;

verus! {

/// Body served when a request fails inside the server.
pub fn internal_error() -> (body: &'static str)
    ensures
        body@ == "Whoops! Looks like we messed up."@,
{
    "Whoops! Looks like we messed up."
}

/// Body served for an address that the server does not know.
pub fn not_found(uri: &str) -> (body: String)
    ensures
        body@ == "Couldn't find '"@ + uri@ + "'. Try something else?"@,
{
    let mut body = String::from_str("Couldn't find '");
    body.append(uri);
    body.append("'. Try something else?");
    body
}

/// The entry of the listing for the source kept under `id`: its id, and title
/// and row count as the state document has them.
pub open spec fn listing_item(id: u64, entry: JsonValue) -> JsonValue {
    JsonValue::Object(
        seq![
            ("sheet_id"@, JsonValue::Number(Some(id))),
            ("title"@, entry.field("title"@)),
            ("total_row"@, entry.field("total_row"@)),
        ],
    )
}

/// The listing made from a state document: one entry for each member, in the
/// order of the document. There is none where the document is no object, or
/// where the name of a member is not the decimal notation of a source id.
pub open spec fn listing(doc: JsonValue) -> Option<Seq<JsonValue>> {
    match doc {
        JsonValue::Object(fields) => if forall|i: int|
            0 <= i < fields.len() ==> parse_u64(#[trigger] fields[i].0) is Some {
            Some(
                fields.map_values(
                    |p: (Seq<char>, JsonValue)| listing_item(parse_u64(p.0).unwrap(), p.1),
                ),
            )
        } else {
            None
        },
        _ => None,
    }
}

/// The listing made from the text of a state document.
pub open spec fn listing_of(state: Seq<u8>) -> Option<Seq<JsonValue>> {
    listing(document_of(state))
}

/// The error for a state document that no listing can be made from.
pub open spec fn no_listing() -> ErrorView {
    ErrorView { kind: ErrorKind::Protocol, message: "failed to read the state document"@ }
}

/// The entry of the listing for the source kept under `id`.
pub fn list_item(id: u64, entry: &Json) -> (item: Json)
    ensures
        item@ == listing_item(id, entry@),
{
    let title = match entry.get("title") {
        Some(doc) => doc.deep_clone(),
        None => Json::Null,
    };
    let total_row = match entry.get("total_row") {
        Some(doc) => doc.deep_clone(),
        None => Json::Null,
    };
    let mut fields: Vec<(String, Json)> = Vec::new();
    fields.push((String::from_str("sheet_id"), Json::Number(Some(id))));
    fields.push((String::from_str("title"), title));
    fields.push((String::from_str("total_row"), total_row));
    let item = Json::Object(fields);
    proof {
        item.lemma_object_view();
        assert(item@->Object_0 =~= listing_item(id, entry@)->Object_0);
    }
    item
}

/// Lists the mirrored sources of a state document: a JSON array with one entry
/// for each member of the document.
pub fn list_document(state: &Json) -> (res: Result<Json, Error>)
    ensures
        match res {
            Ok(doc) => listing(state@) is Some && doc@ == JsonValue::Array(
                listing(state@).unwrap(),
            ),
            Err(e) => listing(state@) is None && e@ == no_listing(),
        },
{
    match state {
        Json::Object(fields) => {
            let ghost members = state@->Object_0;
            proof {
                state.lemma_object_view();
            }
            let mut items: Vec<Json> = Vec::new();
            let mut i: usize = 0;
            while i < fields.len()
                invariant
                    0 <= i <= fields@.len(),
                    items@.len() == i,
                    state@ == JsonValue::Object(members),
                    members.len() == fields@.len(),
                    forall|j: int|
                        0 <= j < fields@.len() ==> #[trigger] members[j] == (
                            fields@[j].0@,
                            fields@[j].1@,
                        ),
                    forall|j: int| 0 <= j < i ==> parse_u64(#[trigger] members[j].0) is Some,
                    forall|j: int|
                        0 <= j < i ==> (#[trigger] items@[j])@ == listing_item(
                            parse_u64(members[j].0).unwrap(),
                            members[j].1,
                        ),
                decreases fields@.len() - i,
            {
                assert(members[i as int] == (fields@[i as int].0@, fields@[i as int].1@));
                match from_decimal(fields[i].0.as_str()) {
                    Some(id) => {
                        items.push(list_item(id, &fields[i].1));
                    },
                    None => {
                        assert(parse_u64(members[i as int].0) is None);
                        return Err(
                            Error::ProtocolError(
                                String::from_str("failed to read the state document"),
                            ),
                        );
                    },
                }
                i += 1;
            }
            let listing_doc = Json::Array(items);
            proof {
                listing_doc.lemma_array_view();
                assert(listing_doc@->Array_0 =~= listing(state@).unwrap());
            }
            Ok(listing_doc)
        },
        _ => Err(Error::ProtocolError(String::from_str("failed to read the state document"))),
    }
}

/// Lists the mirrored sources, given the text of the state document: see
/// [`list_document`]. A text that is no JSON text gives no listing.
pub fn list(state: &[u8]) -> (res: Result<Json, Error>)
    ensures
        match res {
            Ok(doc) => listing_of(state@) is Some && doc@ == JsonValue::Array(
                listing_of(state@).unwrap(),
            ),
            Err(e) => listing_of(state@) is None && e@ == no_listing(),
        },
{
    let doc = Json::read(state);
    list_document(&doc)
}

} // verus!
