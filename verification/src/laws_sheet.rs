//! Laws of the spreadsheet: what of a reply, and of a grid of cells, comes to stand where.

use vstd::prelude::*;

use crate::config::SheetRow;
use crate::json::{compact_text, field, json_document, subfield, JsonTree};
use crate::laws::{law_row_text, lemma_first_place, lemma_last_place};
use crate::sheet::{
    cell_content, first_place, grid_view, keyed_rows, last_place, named, row_texts, row_values,
    row_views, sheet_in, sheet_in_reply, sheet_of_document, texts_of, SheetFault, SheetView,
};
use crate::table::{entries, lookup};
use crate::text::{blank, views};

verus! {

broadcast use {vstd::seq::group_seq_axioms, vstd::map::group_map_axioms};

/// The text of the cell at `at`; a row that is too short has an empty one there.
pub open spec fn cell_at(row: Seq<Seq<char>>, at: int) -> Seq<char> {
    if 0 <= at < row.len() {
        row[at]
    } else {
        Seq::empty()
    }
}

/// How many of `rows` have a key that is not blank.
pub open spec fn kept(rows: Seq<Seq<Seq<char>>>) -> nat
    decreases rows.len(),
{
    if rows.len() == 0 {
        0
    } else {
        kept(rows.drop_last()) + if blank(cell_at(rows.last(), 0)) {
            0nat
        } else {
            1nat
        }
    }
}

/// The named columns are found one by one, in order.
pub proof fn law_named(a: Seq<Seq<char>>, b: Seq<Seq<char>>, name: Seq<char>)
    ensures
        named(a + b) == named(a) + named(b),
        named(seq![name]) == if blank(name) {
            Seq::empty()
        } else {
            seq![name]
        },
    decreases b.len(),
{
    assert(seq![name].drop_last() =~= Seq::<Seq<char>>::empty());
    assert(named(seq![name].drop_last()) =~= Seq::<Seq<char>>::empty());
    assert(Seq::<Seq<char>>::empty().push(name) =~= seq![name]);
    if b.len() > 0 {
        law_named(a, b.drop_last(), name);
        assert((a + b).drop_last() =~= a + b.drop_last());
        assert((a + b).last() == b.last());
        assert(named(a + b) =~= named(a) + named(b));
    } else {
        assert(a + b =~= a);
        assert(named(a) + named(b) =~= named(a));
    }
}

/// Every row with a key that is not blank is kept, in order and under its key, and no other is.
pub proof fn law_kept_rows(names: Seq<Seq<char>>, rows: Seq<Seq<Seq<char>>>, i: int)
    ensures
        keyed_rows(names, rows).len() == kept(rows),
        0 <= i < rows.len() && !blank(cell_at(rows[i], 0)) ==> kept(rows.take(i)) < kept(rows)
            && keyed_rows(names, rows)[kept(rows.take(i)) as int].key == cell_at(rows[i], 0)
            && keyed_rows(names, rows)[kept(rows.take(i)) as int].values == row_values(
            names,
            rows[i],
            names.len() as int,
        ),
    decreases rows.len(),
{
    if rows.len() > 0 {
        let short = rows.drop_last();
        law_kept_rows(names, short, i);
        if 0 <= i < rows.len() {
            if i < short.len() {
                assert(short[i] == rows[i]);
                assert(short.take(i) =~= rows.take(i));
            } else {
                assert(rows.take(i) =~= short);
                law_kept_rows(names, short, 0);
            }
        }
    }
}

/// In the sheet of a grid, the text of a kept row in a language is the cell of the row in the
/// column of the language; of two columns with one name, the later counts. The key is the first
/// cell of the row. The languages are the names in the first row after its first cell.
pub proof fn law_sheet_of_grid(
    grid: Seq<Seq<Seq<char>>>,
    mod_id: Seq<char>,
    row: int,
    column: int,
)
    requires
        grid.len() > 0,
    ensures
        sheet_in(grid, mod_id).mod_id == mod_id,
        sheet_in(grid, mod_id).languages == if grid[0].len() == 0 {
            Seq::empty()
        } else {
            named(grid[0].skip(1))
        },
        sheet_in(grid, mod_id).rows.len() == kept(grid.skip(1)),
        1 <= row < grid.len() && !blank(cell_at(grid[row], 0)) ==> ({
            let at = kept(grid.subrange(1, row)) as int;
            let sheet = sheet_in(grid, mod_id);
            &&& 0 <= at < sheet.rows.len()
            &&& sheet.rows[at].key == cell_at(grid[row], 0)
            &&& 1 <= column < grid[0].len() && !blank(grid[0][column]) && (forall|k: int|
                column < k < grid[0].len() ==> #[trigger] grid[0][k] != grid[0][column])
                ==> lookup(sheet.rows[at].values, grid[0][column]) == Some(
                cell_at(grid[row], column),
            )
        }),
{
    let body = grid.drop_first();
    let names = if grid[0].len() == 0 {
        grid[0]
    } else {
        grid[0].drop_first()
    };
    assert(grid.skip(1) =~= body);
    if grid[0].len() > 0 {
        assert(grid[0].skip(1) =~= names);
    } else {
        assert(named(names) =~= Seq::<Seq<char>>::empty());
    }
    law_kept_rows(names, body, row - 1);
    if 1 <= row < grid.len() && !blank(cell_at(grid[row], 0)) {
        assert(body[row - 1] == grid[row]);
        assert(body.take(row - 1) =~= grid.subrange(1, row));
        if 1 <= column < grid[0].len() && !blank(grid[0][column]) && (forall|k: int|
            column < k < grid[0].len() ==> #[trigger] grid[0][k] != grid[0][column]) {
            assert(names[column - 1] == grid[0][column]);
            assert forall|k: int| column - 1 < k < names.len() implies #[trigger] names[k]
                != names[column - 1] by {
                assert(names[k] == grid[0][k + 1]);
            }
            law_row_text(names, grid[row], names.len() as int, column - 1);
        }
    }
}

/// The text of a cell is the text under `v`. A cell that is null or no object, or whose `v` is
/// missing or null, is empty; a `v` of another kind is written as JSON.
pub proof fn law_cell(cell: JsonTree, text: Seq<char>, value: JsonTree)
    ensures
        cell_content(JsonTree::Null).len() == 0,
        !(cell is Object) ==> cell_content(cell).len() == 0,
        cell matches JsonTree::Object(ms) ==> !ms.dom().contains("v"@) ==> cell_content(cell).len()
            == 0,
        cell matches JsonTree::Object(ms) ==> ms.dom().contains("v"@) && ms["v"@] is Null
            ==> cell_content(cell).len() == 0,
        cell matches JsonTree::Object(ms) ==> ms.dom().contains("v"@) && ms["v"@]
            == JsonTree::Text(text) ==> cell_content(cell) == text,
        cell matches JsonTree::Object(ms) ==> ms.dom().contains("v"@) && ms["v"@] == value && !(
        value is Null) && !(value is Text) ==> cell_content(cell) == compact_text(value),
{
}

/// The cells of a row are the items under `c`, each with its text, in order.
pub proof fn law_cells(row: JsonTree, items: Seq<JsonTree>, rows: Seq<JsonTree>, i: int, j: int)
    ensures
        field(row, "c"@) == Some(JsonTree::Array(items)) ==> row_texts(row).len() == items.len()
            && (0 <= j < items.len() ==> row_texts(row)[j] == cell_content(items[j])),
        !(field(row, "c"@) matches Some(JsonTree::Array(_))) ==> row_texts(row).len() == 0,
        texts_of(rows).len() == rows.len(),
        0 <= i < rows.len() ==> texts_of(rows)[i] == row_texts(rows[i]),
{
}

/// The sheet of a document is that of the rows under `rows` under `table`; a document without such
/// a list, or with an empty one, has none.
pub proof fn law_document(document: JsonTree, rows: Seq<JsonTree>, mod_id: Seq<char>)
    ensures
        subfield(field(document, "table"@), "rows"@) == Some(JsonTree::Array(rows)) && rows.len() > 0
            ==> sheet_of_document(document, mod_id) == Ok::<SheetView, SheetFault>(
            sheet_in(texts_of(rows), mod_id),
        ),
        subfield(field(document, "table"@), "rows"@) == Some(JsonTree::Array(rows)) && rows.len()
            == 0 ==> sheet_of_document(document, mod_id) == Err::<SheetView, SheetFault>(
            SheetFault::Empty,
        ),
        !(subfield(field(document, "table"@), "rows"@) matches Some(JsonTree::Array(_)))
            ==> sheet_of_document(document, mod_id) == Err::<SheetView, SheetFault>(
            SheetFault::NoRows,
        ),
{
}

/// A member of an object is what stands under its name; nothing else has members.
pub proof fn law_field(ms: Map<Seq<char>, JsonTree>, tree: JsonTree, name: Seq<char>)
    ensures
        ms.dom().contains(name) ==> field(JsonTree::Object(ms), name) == Some(ms[name]),
        !ms.dom().contains(name) ==> field(JsonTree::Object(ms), name) is None,
        !(tree is Object) ==> field(tree, name) is None,
        subfield(None, name) is None,
        subfield(Some(tree), name) == field(tree, name),
{
}

/// The document of a reply is what stands from the first opening brace to the last closing one. A
/// reply without an opening brace, or without a closing one, has none.
pub proof fn law_reply(body: Seq<char>, start: int, end: int, mod_id: Seq<char>)
    ensures
        sheet_in_reply(body, mod_id) == Err::<SheetView, SheetFault>(SheetFault::NoStart)
            <== !body.contains('{'),
        sheet_in_reply(body, mod_id) == Err::<SheetView, SheetFault>(SheetFault::NoEnd)
            <== body.contains('{') && !body.contains('}'),
        0 <= start < body.len() && body[start] == '{' && (forall|k: int|
            0 <= k < start ==> #[trigger] body[k] != '{') && 0 <= end < body.len() && body[end]
            == '}' && (forall|k: int| end < k < body.len() ==> #[trigger] body[k] != '}')
            ==> sheet_in_reply(body, mod_id) == match json_document(
            body.subrange(start, end + 1),
        ) {
            Ok(document) => sheet_of_document(document, mod_id),
            Err(e) => Err(SheetFault::Json(e)),
        },
{
    lemma_first_place(body, '{');
    lemma_last_place(body, '}');
    if let Some(i) = first_place(body, '{') {
        assert(body.contains(body[i]));
    }
    if let Some(i) = last_place(body, '}') {
        assert(body.contains(body[i]));
    }
    if 0 <= start < body.len() && body[start] == '{' && (forall|k: int|
        0 <= k < start ==> #[trigger] body[k] != '{') {
        assert(first_place(body, '{') is Some);
        let i = first_place(body, '{')->0;
        assert(body[i] == '{');
        assert(i == start);
    }
    if 0 <= end < body.len() && body[end] == '}' && (forall|k: int|
        end < k < body.len() ==> #[trigger] body[k] != '}') {
        assert(last_place(body, '}') is Some);
        let i = last_place(body, '}')->0;
        assert(body[i] == '}');
        assert(i == end);
    }
}

/// Grids and rows are taken item by item.
pub proof fn law_sheet_views(grid: Seq<Vec<String>>, rows: Seq<SheetRow>, i: int)
    ensures
        grid_view(grid).len() == grid.len(),
        0 <= i < grid.len() ==> grid_view(grid)[i] == views(grid[i]@),
        row_views(rows).len() == rows.len(),
        0 <= i < rows.len() ==> row_views(rows)[i].key == rows[i].key@ && row_views(rows)[i].values
            == entries(rows[i].values),
{
}

} // verus!
