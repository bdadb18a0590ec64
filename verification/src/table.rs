//! Normalizing a fetched payload into a flat table.
//!
//! Decoding is tolerant: a field that is missing, or that holds a value of
//! another type, counts as the empty string or the empty list, and the decoding
//! goes on. Normalizing never fails.

use crate::json::{
    document_of, field_of, get_value_at, item_of, items_of, value_of, views, Json, JsonValue,
};
use vstd::prelude::*;
use vstd::string::StringExecFns;

verus! {

/// The text shown in a cell: its `formattedValue`, or nothing.
pub open spec fn cell_text(cell: JsonValue) -> Seq<char> {
    match cell.field("formattedValue"@).text() {
        Some(s) => s,
        None => Seq::empty(),
    }
}

/// The cells of a row: the texts of its `values`, in order.
pub open spec fn row_cells(row: JsonValue) -> Seq<Seq<char>> {
    row.field("values"@).items_or_empty().map_values(|cell: JsonValue| cell_text(cell))
}

/// Whether every cell of a row is empty. A row without cells is blank.
pub open spec fn is_blank(cells: Seq<Seq<char>>) -> bool {
    forall|i: int| 0 <= i < cells.len() ==> (#[trigger] cells[i]).len() == 0
}

/// The rows that a table keeps: those that are not blank.
pub open spec fn kept() -> spec_fn(Seq<Seq<char>>) -> bool {
    |cells: Seq<Seq<char>>| !is_blank(cells)
}

/// All rows of a sheet, blank ones included: the `rowData` of its first `data`
/// block.
pub open spec fn sheet_row_docs(sheet: JsonValue) -> Seq<JsonValue> {
    sheet.field("data"@).item(0).field("rowData"@).items_or_empty()
}

/// The rows of the table made from a sheet: its rows in order, without the blank
/// ones.
pub open spec fn sheet_rows(sheet: JsonValue) -> Seq<Seq<Seq<char>>> {
    sheet_row_docs(sheet).map_values(|row: JsonValue| row_cells(row)).filter(kept())
}

/// The title of a sheet, or nothing.
pub open spec fn sheet_title(sheet: JsonValue) -> Seq<char> {
    match sheet.field("properties"@).field("title"@).text() {
        Some(s) => s,
        None => Seq::empty(),
    }
}

/// The sheet that a payload is about: the first of its `sheets`, or `Null` where
/// it has none.
pub open spec fn first_sheet(doc: JsonValue) -> JsonValue {
    doc.field("sheets"@).item(0)
}

/// A normalized table as a mathematical value.
pub struct TableView {
    pub sheet_id: u64,
    pub title: Seq<char>,
    pub rows: Seq<Seq<Seq<char>>>,
    pub updated_at: Seq<char>,
}

impl TableView {
    /// No row of a table is blank.
    pub open spec fn wf(self) -> bool {
        forall|i: int| 0 <= i < self.rows.len() ==> !is_blank(#[trigger] self.rows[i])
    }
}

/// The table made from a sheet.
pub open spec fn table_of_sheet(sheet: JsonValue, sheet_id: u64, updated_at: Seq<char>) -> TableView {
    TableView { sheet_id, title: sheet_title(sheet), rows: sheet_rows(sheet), updated_at }
}

/// The table made from a payload.
pub open spec fn table_of(payload: Seq<u8>, sheet_id: u64, updated_at: Seq<char>) -> TableView {
    table_of_sheet(first_sheet(document_of(payload)), sheet_id, updated_at)
}

/// The JSON array written for one row.
pub open spec fn row_document(cells: Seq<Seq<char>>) -> JsonValue {
    JsonValue::Array(cells.map_values(|cell: Seq<char>| JsonValue::Text(cell)))
}

/// The snapshot of a table: the JSON object written to the file of its source.
pub open spec fn snapshot_document(table: TableView) -> JsonValue {
    JsonValue::Object(
        seq![
            ("sheet_id"@, JsonValue::Number(Some(table.sheet_id))),
            ("title"@, JsonValue::Text(table.title)),
            (
                "rows"@,
                JsonValue::Array(table.rows.map_values(|cells: Seq<Seq<char>>| row_document(cells))),
            ),
            ("updated_at"@, JsonValue::Text(table.updated_at)),
        ],
    )
}

/// The pointer to the source that changed last: the JSON object that names the
/// table's source, its title and when the table was made.
pub open spec fn last_updated_document(table: TableView) -> JsonValue {
    JsonValue::Object(
        seq![
            ("sheet_id"@, JsonValue::Number(Some(table.sheet_id))),
            ("title"@, JsonValue::Text(table.title)),
            ("updated_at"@, JsonValue::Text(table.updated_at)),
        ],
    )
}

/// The table of one source: its title, its rows of cells, and when it was made.
#[derive(Debug)]
pub struct DataSheets {
    sheet_id: u64,
    title: String,
    rows: Vec<Vec<String>>,
    updated_at: String,
}

impl View for DataSheets {
    type V = TableView;

    closed spec fn view(&self) -> TableView {
        TableView {
            sheet_id: self.sheet_id,
            title: self.title@,
            rows: self.rows.deep_view(),
            updated_at: self.updated_at@,
        }
    }
}

impl DataSheets {
    /// No row of a table is blank.
    #[verifier::type_invariant]
    spec fn inv(self) -> bool {
        self@.wf()
    }

    /// The id of the source that the table was made from.
    pub fn sheet_id(&self) -> (id: u64)
        ensures
            id == self@.sheet_id,
    {
        self.sheet_id
    }

    /// The title of the table.
    pub fn title(&self) -> (title: &String)
        ensures
            title@ == self@.title,
    {
        &self.title
    }

    /// The rows of the table. None of them is blank.
    pub fn rows(&self) -> (rows: &Vec<Vec<String>>)
        ensures
            rows.deep_view() == self@.rows,
            self@.wf(),
    {
        proof {
            use_type_invariant(self);
        }
        &self.rows
    }

    /// When the table was made.
    pub fn updated_at(&self) -> (at: &String)
        ensures
            at@ == self@.updated_at,
    {
        &self.updated_at
    }

    /// The number of rows of the table.
    pub fn total_row(&self) -> (n: usize)
        ensures
            n == self@.rows.len(),
    {
        self.rows.len()
    }

    /// The snapshot of the table.
    pub fn snapshot(&self) -> (doc: Json)
        ensures
            doc@ == snapshot_document(self@),
    {
        let mut rows: Vec<Json> = Vec::new();
        let mut i: usize = 0;
        while i < self.rows.len()
            invariant
                0 <= i <= self.rows@.len(),
                rows@.len() == i,
                forall|j: int|
                    0 <= j < i ==> (#[trigger] rows@[j])@ == row_document(self.rows@[j].deep_view()),
            decreases self.rows@.len() - i,
        {
            let row = row_doc(&self.rows[i]);
            rows.push(row);
            i += 1;
        }
        let rows_doc = Json::Array(rows);
        proof {
            rows_doc.lemma_array_view();
            assert(rows_doc@->Array_0 =~= self@.rows.map_values(
                |cells: Seq<Seq<char>>| row_document(cells),
            ));
        }
        let mut fields: Vec<(String, Json)> = Vec::new();
        fields.push((String::from_str("sheet_id"), Json::Number(Some(self.sheet_id))));
        fields.push((String::from_str("title"), Json::Text(self.title.clone())));
        fields.push((String::from_str("rows"), rows_doc));
        fields.push((String::from_str("updated_at"), Json::Text(self.updated_at.clone())));
        let doc = Json::Object(fields);
        proof {
            doc.lemma_object_view();
            assert(doc@->Object_0 =~= snapshot_document(self@)->Object_0);
        }
        doc
    }

    /// The pointer that names this table's source as the one that changed last.
    pub fn last_updated(&self) -> (doc: Json)
        ensures
            doc@ == last_updated_document(self@),
    {
        let mut fields: Vec<(String, Json)> = Vec::new();
        fields.push((String::from_str("sheet_id"), Json::Number(Some(self.sheet_id))));
        fields.push((String::from_str("title"), Json::Text(self.title.clone())));
        fields.push((String::from_str("updated_at"), Json::Text(self.updated_at.clone())));
        let doc = Json::Object(fields);
        proof {
            doc.lemma_object_view();
            assert(doc@->Object_0 =~= last_updated_document(self@)->Object_0);
        }
        doc
    }
}

/// The JSON array written for one row.
pub fn row_doc(cells: &Vec<String>) -> (doc: Json)
    ensures
        doc@ == row_document(cells.deep_view()),
{
    let mut items: Vec<Json> = Vec::new();
    let mut i: usize = 0;
    while i < cells.len()
        invariant
            0 <= i <= cells@.len(),
            items@.len() == i,
            forall|j: int| 0 <= j < i ==> (#[trigger] items@[j])@ == JsonValue::Text(cells@[j]@),
        decreases cells@.len() - i,
    {
        items.push(Json::Text(cells[i].clone()));
        i += 1;
    }
    let doc = Json::Array(items);
    proof {
        doc.lemma_array_view();
        assert(doc@->Array_0 =~= cells.deep_view().map_values(
            |cell: Seq<char>| JsonValue::Text(cell),
        ));
    }
    doc
}

/// Every row that a filter by [`kept`] lets through is not blank.
pub proof fn lemma_kept_rows_are_not_blank(rows: Seq<Seq<Seq<char>>>)
    ensures
        forall|i: int|
            0 <= i < rows.filter(kept()).len() ==> !is_blank(#[trigger] rows.filter(kept())[i]),
{
    assert forall|i: int| 0 <= i < rows.filter(kept()).len() implies !is_blank(
        #[trigger] rows.filter(kept())[i],
    ) by {
        rows.lemma_filter_pred(kept(), i);
    }
}

/// A row is in the table exactly when it is a row of the sheet and is not blank.
pub proof fn lemma_row_filtering(sheet: JsonValue, cells: Seq<Seq<char>>)
    ensures
        sheet_rows(sheet).contains(cells) <==> !is_blank(cells) && sheet_row_docs(
            sheet,
        ).map_values(|row: JsonValue| row_cells(row)).contains(cells),
{
    let all = sheet_row_docs(sheet).map_values(|row: JsonValue| row_cells(row));
    if sheet_rows(sheet).contains(cells) {
        let i = choose|i: int| 0 <= i < sheet_rows(sheet).len() && sheet_rows(sheet)[i] == cells;
        all.lemma_filter_pred(kept(), i);
        all.lemma_filter_contains_rev(kept(), cells);
    }
    if !is_blank(cells) && all.contains(cells) {
        let i = choose|i: int| 0 <= i < all.len() && all[i] == cells;
        all.lemma_filter_contains(kept(), i);
    }
}

/// The rows of the table stand in the order of the sheet: the table is what is
/// left of the sheet's rows when the blank ones are taken out, so a sheet
/// without blank rows is kept whole.
pub proof fn lemma_rows_without_blanks_are_kept(sheet: JsonValue)
    requires
        forall|i: int|
            0 <= i < sheet_row_docs(sheet).len() ==> !is_blank(
                row_cells(#[trigger] sheet_row_docs(sheet)[i]),
            ),
    ensures
        sheet_rows(sheet) == sheet_row_docs(sheet).map_values(|row: JsonValue| row_cells(row)),
{
    let all = sheet_row_docs(sheet).map_values(|row: JsonValue| row_cells(row));
    lemma_filter_all(all);
}

/// A filter by [`kept`] keeps a list of rows whole where none of them is blank.
proof fn lemma_filter_all(rows: Seq<Seq<Seq<char>>>)
    requires
        forall|i: int| 0 <= i < rows.len() ==> !is_blank(#[trigger] rows[i]),
    ensures
        rows.filter(kept()) == rows,
    decreases rows.len(),
{
    reveal(Seq::filter);
    if rows.len() > 0 {
        let rest = rows.drop_last();
        assert forall|i: int| 0 <= i < rest.len() implies !is_blank(#[trigger] rest[i]) by {
            assert(rest[i] == rows[i]);
        }
        lemma_filter_all(rest);
        assert(rows =~= rest.push(rows.last()));
    }
}

/// The text shown in a cell.
pub fn parse_cell(cell: &Json) -> (text: String)
    ensures
        text@ == cell_text(cell@),
{
    get_value_at(cell.get("formattedValue"), String::new())
}

/// The cells of a row.
pub fn parse_row(row: &Json) -> (cells: Vec<String>)
    ensures
        cells.deep_view() == row_cells(row@),
{
    let mut cells: Vec<String> = Vec::new();
    match items_of(row.get("values")) {
        Some(values) => {
            let mut i: usize = 0;
            while i < values.len()
                invariant
                    0 <= i <= values@.len(),
                    cells@.len() == i,
                    forall|j: int| 0 <= j < i ==> (#[trigger] cells@[j])@ == cell_text(values@[j]@),
                decreases values@.len() - i,
            {
                let text = parse_cell(&values[i]);
                cells.push(text);
                i += 1;
            }
            assert(cells.deep_view() =~= row_cells(row@));
        },
        None => {
            assert(cells.deep_view() =~= row_cells(row@));
        },
    }
    cells
}

/// Whether every cell of a row is empty.
pub fn is_blank_row(cells: &Vec<String>) -> (blank: bool)
    ensures
        blank == is_blank(cells.deep_view()),
{
    let mut i: usize = 0;
    while i < cells.len()
        invariant
            0 <= i <= cells@.len(),
            forall|j: int| 0 <= j < i ==> (#[trigger] cells@[j])@.len() == 0,
        decreases cells@.len() - i,
    {
        if !cells[i].as_str().is_empty() {
            assert(cells.deep_view()[i as int].len() != 0);
            return false;
        }
        i += 1;
    }
    assert forall|j: int| 0 <= j < cells.deep_view().len() implies (
    #[trigger] cells.deep_view()[j]).len() == 0 by {
        assert(cells@[j]@.len() == 0);
    }
    true
}

/// The rows of the table made from a sheet.
pub fn parse_rows(row_docs: &Vec<Json>) -> (rows: Vec<Vec<String>>)
    ensures
        rows.deep_view() == views(row_docs@).map_values(|row: JsonValue| row_cells(row)).filter(
            kept(),
        ),
{
    let ghost all = views(row_docs@).map_values(|row: JsonValue| row_cells(row));
    let mut rows: Vec<Vec<String>> = Vec::new();
    let mut i: usize = 0;
    assert(all.take(0) =~= Seq::empty());
    assert(rows.deep_view() =~= Seq::empty());
    proof {
        reveal(Seq::filter);
    }
    while i < row_docs.len()
        invariant
            0 <= i <= row_docs@.len(),
            all == views(row_docs@).map_values(|row: JsonValue| row_cells(row)),
            rows.deep_view() == all.take(i as int).filter(kept()),
        decreases row_docs@.len() - i,
    {
        let cells = parse_row(&row_docs[i]);
        let blank = is_blank_row(&cells);
        proof {
            assert(all.take(i + 1) =~= all.take(i as int).push(all[i as int]));
            all.take(i as int).lemma_filter_push(all[i as int], kept());
            assert(cells.deep_view() == all[i as int]);
        }
        let ghost before = rows.deep_view();
        if !blank {
            rows.push(cells);
            assert(rows.deep_view() =~= before.push(all[i as int]));
        }
        i += 1;
    }
    assert(all.take(i as int) =~= all);
    rows
}

/// The table made from a sheet, where `sheet` is the sheet or `None` for a
/// payload that has none.
pub fn parse_data(sheet: Option<&Json>, sheet_id: u64, updated_at: String) -> (table: DataSheets)
    ensures
        table@ == table_of_sheet(value_of(sheet), sheet_id, updated_at@),
        table@.wf(),
{
    let title = get_value_at(field_of(field_of(sheet, "properties"), "title"), String::new());
    let row_docs = items_of(field_of(item_of(field_of(sheet, "data"), 0), "rowData"));
    let rows = match row_docs {
        Some(docs) => parse_rows(docs),
        None => {
            let rows: Vec<Vec<String>> = Vec::new();
            proof {
                reveal(Seq::filter);
                assert(sheet_row_docs(value_of(sheet)) =~= Seq::empty());
                assert(sheet_row_docs(value_of(sheet)).map_values(
                    |row: JsonValue| row_cells(row),
                ) =~= Seq::empty());
                assert(rows.deep_view() =~= Seq::empty());
            }
            rows
        },
    };
    proof {
        lemma_kept_rows_are_not_blank(
            sheet_row_docs(value_of(sheet)).map_values(|row: JsonValue| row_cells(row)),
        );
    }
    DataSheets { sheet_id, title, rows, updated_at }
}

/// Normalizes a decoded payload into the table of source `sheet_id`, stamped
/// `updated_at`. This never fails: what cannot be decoded is left empty.
pub fn normalize_document(payload: &Json, sheet_id: u64, updated_at: String) -> (table: DataSheets)
    ensures
        table@ == table_of_sheet(first_sheet(payload@), sheet_id, updated_at@),
        table@.wf(),
{
    parse_data(item_of(payload.get("sheets"), 0), sheet_id, updated_at)
}

/// Normalizes a payload into the table of source `sheet_id`, stamped
/// `updated_at`. This never fails: a payload that is no JSON text gives the
/// empty table, as does one without sheets.
pub fn normalize(payload: &[u8], sheet_id: u64, updated_at: String) -> (table: DataSheets)
    ensures
        table@ == table_of(payload@, sheet_id, updated_at@),
        table@.wf(),
{
    let doc = Json::read(payload);
    normalize_document(&doc, sheet_id, updated_at)
}

} // verus!
