//! JSON documents as the weather and geocoding services send them. `serde_json` parses a document
//! and finds values in it by JSON Pointer; what it finds comes back as plain values.
use serde_json::Value;
use vstd::prelude::*;

verus! {

/// What stands at one place of a JSON document, `Null` where nothing does. A number is kept as its
/// decimal text.
pub enum Cell {
    Null,
    Bool(bool),
    Number(String),
    Text(String),
    Array,
    Object,
}

/// The contents of a [`Cell`].
pub enum CellView {
    Null,
    Bool(bool),
    Number(Seq<char>),
    Text(Seq<char>),
    Array,
    Object,
}

impl View for Cell {
    type V = CellView;

    open spec fn view(&self) -> CellView {
        match *self {
            Cell::Null => CellView::Null,
            Cell::Bool(b) => CellView::Bool(b),
            Cell::Number(n) => CellView::Number(n@),
            Cell::Text(t) => CellView::Text(t@),
            Cell::Array => CellView::Array,
            Cell::Object => CellView::Object,
        }
    }
}

/// A list found in a JSON document, each item given by the cells at some places inside it.
pub enum Listing {
    /// The text is no JSON document.
    Undecodable,
    /// There is no array at the place asked for.
    NoArray,
    Rows(Vec<Vec<Cell>>),
}

/// The contents of a [`Listing`].
#[verifier::ext_equal]
pub enum ListingView {
    Undecodable,
    NoArray,
    Rows(Seq<Seq<CellView>>),
}

/// The contents of a row of cells.
pub open spec fn row_view(row: Seq<Cell>) -> Seq<CellView> {
    Seq::new(row.len(), |i: int| row[i]@)
}

/// The contents of rows of cells.
pub open spec fn rows_view(rows: Seq<Vec<Cell>>) -> Seq<Seq<CellView>> {
    Seq::new(rows.len(), |i: int| row_view(rows[i]@))
}

impl View for Listing {
    type V = ListingView;

    open spec fn view(&self) -> ListingView {
        match *self {
            Listing::Undecodable => ListingView::Undecodable,
            Listing::NoArray => ListingView::NoArray,
            Listing::Rows(rows) => ListingView::Rows(rows_view(rows@)),
        }
    }
}

/// Every row has `width` cells.
pub open spec fn rows_width(rows: Seq<Seq<CellView>>, width: nat) -> bool {
    forall|i: int| 0 <= i < rows.len() ==> (#[trigger] rows[i]).len() == width
}

/// Every row of a listing has `width` cells.
pub open spec fn has_width(listing: ListingView, width: nat) -> bool {
    listing matches ListingView::Rows(rows) ==> rows_width(rows, width)
}

/// The characters of each path.
pub open spec fn paths(columns: Seq<&str>) -> Seq<Seq<char>> {
    Seq::new(columns.len(), |i: int| columns[i]@)
}

/// What stands at `path` in the JSON document with the bytes `body`; `None` where the bytes are no
/// JSON document.
pub uninterp spec fn json_cell(body: Seq<u8>, path: Seq<char>) -> Option<CellView>;

/// The array at `path` in the JSON document with the bytes `body`, each item given by what stands
/// at `columns` inside it.
pub uninterp spec fn json_listing(
    body: Seq<u8>,
    path: Seq<char>,
    columns: Seq<Seq<char>>,
) -> ListingView;

/// Parses `body` with `serde_json::from_slice` and looks `path` up with
/// `serde_json::Value::pointer`, where a missing value counts as `Null`. The result depends on the
/// bytes and the path alone.
#[verifier::external_body]
pub(crate) fn find_cell(body: &[u8], path: &str) -> (r: Option<Cell>)
    ensures
        (match r {
            Some(cell) => Some(cell@),
            None => None,
        }) == json_cell(body@, path@),
{
    let doc: Value = serde_json::from_slice(body).ok()?;
    Some(match doc.pointer(path).unwrap_or(&Value::Null) {
        Value::Null => Cell::Null,
        Value::Bool(b) => Cell::Bool(*b),
        Value::Number(n) => Cell::Number(n.to_string()),
        Value::String(s) => Cell::Text(s.clone()),
        Value::Array(_) => Cell::Array,
        Value::Object(_) => Cell::Object,
    })
}

/// Parses `body` with `serde_json::from_slice`, takes the array at `path` and looks each of
/// `columns` up in each of its items with `serde_json::Value::pointer`, where a missing value counts
/// as `Null`. The result depends on the bytes and the paths alone, and each row has one cell for
/// each of `columns`.
#[verifier::external_body]
pub(crate) fn find_rows(body: &[u8], path: &str, columns: &Vec<&str>) -> (r: Listing)
    ensures
        r@ == json_listing(body@, path@, paths(columns@)),
        has_width(r@, columns@.len()),
{
    let Ok(doc) = serde_json::from_slice::<Value>(body) else { return Listing::Undecodable };
    let Some(items) = doc.pointer(path).and_then(|v| v.as_array()) else { return Listing::NoArray };
    Listing::Rows(items.iter().map(|item| columns.iter().map(|c| match item.pointer(c).unwrap_or(&Value::Null) {
        Value::Null => Cell::Null,
        Value::Bool(b) => Cell::Bool(*b),
        Value::Number(n) => Cell::Number(n.to_string()),
        Value::String(s) => Cell::Text(s.clone()),
        Value::Array(_) => Cell::Array,
        Value::Object(_) => Cell::Object,
    }).collect()).collect())
}

/// The text of a cell, where it holds one.
pub open spec fn cell_text(cell: CellView) -> Option<Seq<char>> {
    match cell {
        CellView::Text(t) => Some(t),
        _ => None,
    }
}

/// The decimal text of a cell, where it holds a number.
pub open spec fn cell_number(cell: CellView) -> Option<Seq<char>> {
    match cell {
        CellView::Number(n) => Some(n),
        _ => None,
    }
}

/// The characters of an optional string.
pub open spec fn opt_text(t: Option<String>) -> Option<Seq<char>> {
    match t {
        Some(t) => Some(t@),
        None => None,
    }
}

impl Cell {
    /// The text that the cell holds, if it holds one.
    pub fn as_text(&self) -> (r: Option<String>)
        ensures
            opt_text(r) == cell_text(self@),
    {
        match self {
            Cell::Text(t) => Some(t.clone()),
            _ => None,
        }
    }

    /// The decimal text of the number that the cell holds, if it holds one.
    pub fn as_number(&self) -> (r: Option<String>)
        ensures
            opt_text(r) == cell_number(self@),
    {
        match self {
            Cell::Number(n) => Some(n.clone()),
            _ => None,
        }
    }
}

/// A cell tells a text exactly where it holds one, and a number exactly where it holds one.
pub proof fn cells_tell_what_they_hold(cell: Cell, t: Option<String>, n: Option<String>)
    requires
        call_ensures(Cell::as_text, (&cell,), t),
        call_ensures(Cell::as_number, (&cell,), n),
    ensures
        cell is Text ==> t is Some && t->0@ == cell->Text_0@,
        !(cell is Text) ==> t is None,
        cell is Number ==> n is Some && n->0@ == cell->Number_0@,
        !(cell is Number) ==> n is None,
{
}

} // verus!
