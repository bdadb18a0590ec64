//! Enumerating the sources of the document, and asking for the data of one.

use crate::error::{Error, ErrorKind, ErrorView};
use crate::json::{document_of, field_of, views, Json, JsonValue};
use vstd::prelude::*;
use vstd::string::StringExecFns;

verus! {

/// The address of the data endpoint: requests for the listing and for the data
/// of one source are posted to it.
pub const URL: &'static str =
    "https://sheets.googleapis.com/v4/spreadsheets/1RIcSiQqPCw-6H55QIYwblIQDPpFQmDNC73ukFa05J7c:getByDataFilter";

/// A source as a mathematical value.
pub struct SourceView {
    pub id: u64,
    pub title: Seq<char>,
}

/// One tab of the document: a stable id and a title for display.
#[derive(Clone, Debug, PartialEq, Eq)]
pub struct Source {
    pub id: u64,
    pub title: String,
}

impl View for Source {
    type V = SourceView;

    open spec fn view(&self) -> SourceView {
        SourceView { id: self.id, title: self.title@ }
    }
}

/// The sources that a list of sources stands for, one for one.
pub open spec fn source_views(sources: Seq<Source>) -> Seq<SourceView> {
    Seq::new(sources.len(), |i: int| sources[i]@)
}

/// The source that a sheet of the listing describes: its `sheetId`, which has to
/// be an unsigned integer, and its `title`, which has to be a string. A sheet
/// that lacks either describes none.
pub open spec fn source_of(sheet: JsonValue) -> Option<SourceView> {
    let properties = sheet.field("properties"@);
    match (properties.field("sheetId"@).unsigned(), properties.field("title"@).text()) {
        (Some(id), Some(title)) => Some(SourceView { id, title }),
        _ => None,
    }
}

/// The sheets of a listing that are data sources: all but the first, which is
/// kept for other use.
pub open spec fn data_sheets(sheets: Seq<JsonValue>) -> Seq<JsonValue> {
    if sheets.len() == 0 {
        sheets
    } else {
        sheets.drop_first()
    }
}

/// The sources of a listing: those that its data sheets describe, in order.
pub open spec fn listed(sheets: JsonValue) -> Seq<SourceView> {
    data_sheets(sheets.items_or_empty()).filter_map(|sheet: JsonValue| source_of(sheet))
}

/// The `sheets` member of the answer to a listing request, where the answer is
/// a JSON object and has one.
pub open spec fn sheets_of(body: Seq<u8>) -> Option<JsonValue> {
    document_of(body).member("sheets"@)
}

/// The error for an answer without `sheets`.
pub open spec fn no_sheets() -> ErrorView {
    ErrorView { kind: ErrorKind::Protocol, message: "failed to get sheets"@ }
}

/// The source that a sheet of the listing describes.
pub fn read_source(sheet: &Json) -> (res: Option<Source>)
    ensures
        match res {
            Some(source) => source_of(sheet@) == Some(source@),
            None => source_of(sheet@) is None,
        },
{
    let properties = sheet.get("properties");
    let id = match field_of(properties, "sheetId") {
        Some(doc) => doc.as_u64(),
        None => None,
    };
    let title = match field_of(properties, "title") {
        Some(doc) => doc.as_text(),
        None => None,
    };
    match (id, title) {
        (Some(id), Some(title)) => Some(Source { id, title: title.clone() }),
        _ => None,
    }
}

/// Reads the sources off the decoded answer to a listing request.
///
/// The answer has to have a member `sheets`; without one the listing fails. Of
/// the sheets the first is left out. Every other sheet that has an id and a
/// title is a source; one that lacks either is passed over.
pub fn list_sources(answer: &Json) -> (res: Result<Vec<Source>, Error>)
    ensures
        match res {
            Ok(sources) => answer@.member("sheets"@) is Some && source_views(sources@) == listed(
                answer@.member("sheets"@).unwrap(),
            ),
            Err(e) => answer@.member("sheets"@) is None && e@ == no_sheets(),
        },
{
    match answer.get("sheets") {
        Some(sheets_doc) => {
            let mut sources: Vec<Source> = Vec::new();
            let ghost f = |sheet: JsonValue| source_of(sheet);
            match sheets_doc.items() {
                Some(items) => {
                    let ghost all = data_sheets(views(items@));
                    let mut i: usize = 1;
                    proof {
                        assert(all.take(0) =~= Seq::empty());
                        assert(source_views(sources@) =~= all.take(0).filter_map(f));
                    }
                    while i < items.len()
                        invariant
                            1 <= i,
                            f == |sheet: JsonValue| source_of(sheet),
                            all == data_sheets(views(items@)),
                            items@.len() > 0 ==> i <= items@.len(),
                            items@.len() > 0 ==> source_views(sources@) == all.take(
                                i - 1,
                            ).filter_map(f),
                            items@.len() == 0 ==> sources@.len() == 0,
                        decreases items@.len() - i,
                    {
                        let ghost before = source_views(sources@);
                        proof {
                            all.lemma_filter_map_take_succ(f, i - 1);
                            assert(all[i - 1] == items@[i as int]@);
                        }
                        match read_source(&items[i]) {
                            Some(source) => {
                                sources.push(source);
                                assert(source_views(sources@) =~= before + seq![source@]);
                            },
                            None => {
                                assert(all.take(i as int).filter_map(f) =~= before);
                            },
                        }
                        i += 1;
                    }
                    proof {
                        if items@.len() > 0 {
                            assert(all.take(i - 1) =~= all);
                        } else {
                            assert(source_views(sources@) =~= Seq::empty());
                        }
                    }
                },
                None => {
                    assert(source_views(sources@) =~= Seq::empty());
                },
            }
            Ok(sources)
        },
        None => Err(Error::ProtocolError(String::from_str("failed to get sheets"))),
    }
}

/// Reads the sources off the answer to a listing request: see [`list_sources`].
/// An answer that is no JSON text has no `sheets`, so the listing fails.
pub fn get_sheets(body: &[u8]) -> (res: Result<Vec<Source>, Error>)
    ensures
        match res {
            Ok(sources) => sheets_of(body@) is Some && source_views(sources@) == listed(
                sheets_of(body@).unwrap(),
            ),
            Err(e) => sheets_of(body@) is None && e@ == no_sheets(),
        },
{
    let answer = Json::read(body);
    list_sources(&answer)
}

/// Whether the answer to a data request holds sheets: a member `sheets` that is
/// an array.
pub open spec fn holds_sheets(answer: JsonValue) -> bool {
    answer.member("sheets"@) is Some && answer.member("sheets"@).unwrap() is Array
}

/// Whether the decoded answer to a data request holds sheets.
pub fn has_sheets(answer: &Json) -> (ok: bool)
    ensures
        ok == holds_sheets(answer@),
{
    match answer.get("sheets") {
        Some(sheets) => sheets.items().is_some(),
        None => false,
    }
}

/// Takes the answer to the request for the data of one source. An answer that
/// holds sheets is the payload of the source, and is handed on as it came, byte
/// for byte; any other answer is refused.
pub fn get_sheet_data(body: Vec<u8>) -> (res: Result<Vec<u8>, Error>)
    ensures
        match res {
            Ok(payload) => holds_sheets(document_of(body@)) && payload@ == body@,
            Err(e) => !holds_sheets(document_of(body@)) && e@ == no_sheets(),
        },
{
    let answer = Json::read(body.as_slice());
    if has_sheets(&answer) {
        Ok(body)
    } else {
        Err(Error::ProtocolError(String::from_str("failed to get sheets")))
    }
}

/// The body of the request for the data of one source: grid data is asked for,
/// and one filter names the sheet.
pub open spec fn sheet_data_request_document(sheet_id: u64) -> JsonValue {
    JsonValue::Object(
        seq![
            ("includeGridData"@, JsonValue::Bool(true)),
            (
                "dataFilters"@,
                JsonValue::Array(
                    seq![
                        JsonValue::Object(
                            seq![
                                (
                                    "gridRange"@,
                                    JsonValue::Object(
                                        seq![("sheetId"@, JsonValue::Number(Some(sheet_id)))],
                                    ),
                                ),
                            ],
                        ),
                    ],
                ),
            ),
        ],
    )
}

/// The body of the request for the data of source `sheet_id`.
pub fn sheet_data_request(sheet_id: u64) -> (doc: Json)
    ensures
        doc@ == sheet_data_request_document(sheet_id),
{
    let mut range: Vec<(String, Json)> = Vec::new();
    range.push((String::from_str("sheetId"), Json::Number(Some(sheet_id))));
    let range_doc = Json::Object(range);
    let mut filter: Vec<(String, Json)> = Vec::new();
    filter.push((String::from_str("gridRange"), range_doc));
    let filter_doc = Json::Object(filter);
    let mut filters: Vec<Json> = Vec::new();
    filters.push(filter_doc);
    let filters_doc = Json::Array(filters);
    let mut fields: Vec<(String, Json)> = Vec::new();
    fields.push((String::from_str("includeGridData"), Json::Bool(true)));
    fields.push((String::from_str("dataFilters"), filters_doc));
    let doc = Json::Object(fields);
    proof {
        range_doc.lemma_object_view();
        assert(range_doc@->Object_0 =~= seq![("sheetId"@, JsonValue::Number(Some(sheet_id)))]);
        filter_doc.lemma_object_view();
        assert(filter_doc@->Object_0 =~= seq![("gridRange"@, range_doc@)]);
        filters_doc.lemma_array_view();
        assert(filters_doc@->Array_0 =~= seq![filter_doc@]);
        doc.lemma_object_view();
        assert(doc@->Object_0 =~= sheet_data_request_document(sheet_id)->Object_0);
    }
    doc
}

} // verus!
