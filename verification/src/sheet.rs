//! The author's spreadsheet: reading the reply of its query endpoint, JSON wrapped in a script
//! call.

use vstd::prelude::*;

use crate::config::{
    catalogue, find_in, find_mod, sheet_address, sheet_backed_ids, sheet_ids, sheet_url, SheetRow,
    Source,
};
use crate::json::{
    compact_text, field, json_document, json_text, lemma_trees, parse_json, subfield, trees, Json,
    JsonTree,
};
use crate::table::{
    entries, inserted, lookup, table_get, table_get_index, table_insert, table_len, table_new,
    Table,
};
use crate::text::{blank, characters, is_blank, join, joined, owned, string_of, views};

verus! {

broadcast use {vstd::seq::group_seq_axioms, vstd::map::group_map_axioms};

/// A snapshot of the spreadsheet of a mod.
#[derive(Debug)]
pub struct Sheet {
    pub mod_id: String,
    /// The names of the language columns, from the first row.
    pub languages: Vec<String>,
    pub rows: Vec<SheetRow>,
}

/// A row as a mathematical value: its key, and its text in each language.
pub struct RowView {
    pub key: Seq<char>,
    pub values: Seq<(Seq<char>, Seq<char>)>,
}

/// A spreadsheet as a mathematical value.
pub struct SheetView {
    pub mod_id: Seq<char>,
    pub languages: Seq<Seq<char>>,
    pub rows: Seq<RowView>,
}

impl View for SheetRow {
    type V = RowView;

    open spec fn view(&self) -> RowView {
        RowView { key: self.key@, values: entries(self.values) }
    }
}

/// The rows, one by one, as mathematical values.
pub open spec fn row_views(rows: Seq<SheetRow>) -> Seq<RowView> {
    rows.map_values(|r: SheetRow| r@)
}

impl View for Sheet {
    type V = SheetView;

    open spec fn view(&self) -> SheetView {
        SheetView {
            mod_id: self.mod_id@,
            languages: views(self.languages@),
            rows: row_views(self.rows@),
        }
    }
}

impl Clone for Sheet {
    fn clone(&self) -> (r: Self)
        ensures
            r@ == self@,
    {
        let mut languages: Vec<String> = Vec::new();
        let mut i: usize = 0;
        while i < self.languages.len()
            invariant
                i <= self.languages@.len(),
                languages@.len() == i,
                forall|k: int| 0 <= k < i ==> (#[trigger] languages@[k])@ == self.languages@[k]@,
            decreases self.languages@.len() - i,
        {
            languages.push(self.languages[i].clone());
            i = i + 1;
        }
        let mut rows: Vec<SheetRow> = Vec::new();
        let mut j: usize = 0;
        while j < self.rows.len()
            invariant
                j <= self.rows@.len(),
                rows@.len() == j,
                forall|k: int| 0 <= k < j ==> (#[trigger] rows@[k])@ == self.rows@[k]@,
            decreases self.rows@.len() - j,
        {
            rows.push(self.rows[j].clone());
            j = j + 1;
        }
        assert(views(languages@) =~= views(self.languages@));
        assert(row_views(rows@) =~= row_views(self.rows@));
        Sheet { mod_id: self.mod_id.clone(), languages, rows }
    }
}

/// Why a spreadsheet could not be read.
#[derive(Debug)]
pub enum SheetError {
    /// The reply holds no opening brace.
    NoStart,
    /// The reply holds no closing brace.
    NoEnd,
    /// What stands between the braces is no JSON document.
    Json(String),
    /// The document has no rows.
    NoRows,
    /// The document has an empty list of rows.
    Empty,
}

/// The texts of the cells of a row, as a mathematical value.
pub open spec fn grid_view(grid: Seq<Vec<String>>) -> Seq<Seq<Seq<char>>> {
    grid.map_values(|row: Vec<String>| views(row@))
}

/// The cells of a row: the array under `c`.
pub open spec fn cells(row: JsonTree) -> Seq<JsonTree> {
    match field(row, "c"@) {
        Some(JsonTree::Array(items)) => items,
        _ => Seq::empty(),
    }
}

/// The text of a cell: that under `v`. Null counts as empty, and what is no text is written as
/// JSON.
pub open spec fn cell_content(cell: JsonTree) -> Seq<char> {
    match field(cell, "v"@) {
        None => Seq::empty(),
        Some(JsonTree::Null) => Seq::empty(),
        Some(JsonTree::Text(s)) => s,
        Some(other) => compact_text(other),
    }
}

/// The texts of the cells of a row.
pub open spec fn row_texts(row: JsonTree) -> Seq<Seq<char>> {
    cells(row).map_values(|cell: JsonTree| cell_content(cell))
}

/// The texts of the cells of each row.
pub open spec fn texts_of(rows: Seq<JsonTree>) -> Seq<Seq<Seq<char>>> {
    rows.map_values(|row: JsonTree| row_texts(row))
}

/// The rows of a document: the array under `rows` under `table`.
pub open spec fn rows_of(document: JsonTree) -> Option<Seq<JsonTree>> {
    match subfield(field(document, "table"@), "rows"@) {
        Some(JsonTree::Array(rows)) => Some(rows),
        _ => None,
    }
}

/// The text at `index` of a row; a row that is too short has an empty one.
pub open spec fn text_at(row: Seq<Seq<char>>, index: int) -> Seq<char> {
    if 0 <= index < row.len() {
        row[index]
    } else {
        Seq::empty()
    }
}

/// What the first row holds after its first cell: a name for each column.
pub open spec fn column_names(first: Seq<Seq<char>>) -> Seq<Seq<char>> {
    if first.len() == 0 {
        first
    } else {
        first.drop_first()
    }
}

/// The names that are not blank.
pub open spec fn named(names: Seq<Seq<char>>) -> Seq<Seq<char>>
    decreases names.len(),
{
    if names.len() == 0 {
        names
    } else if blank(names.last()) {
        named(names.drop_last())
    } else {
        named(names.drop_last()).push(names.last())
    }
}

/// The texts of a row by column name, for the first `n` columns. A column without a name is left
/// out; of two columns with one name, the later counts.
pub open spec fn row_values(names: Seq<Seq<char>>, row: Seq<Seq<char>>, n: int) -> Seq<
    (Seq<char>, Seq<char>),
>
    decreases n,
{
    if n <= 0 {
        Seq::empty()
    } else if blank(names[n - 1]) {
        row_values(names, row, n - 1)
    } else {
        inserted(row_values(names, row, n - 1), names[n - 1], text_at(row, n))
    }
}

/// The rows with a key, each with its texts by column name.
pub open spec fn keyed_rows(names: Seq<Seq<char>>, rows: Seq<Seq<Seq<char>>>) -> Seq<RowView>
    decreases rows.len(),
{
    if rows.len() == 0 {
        Seq::empty()
    } else if blank(text_at(rows.last(), 0)) {
        keyed_rows(names, rows.drop_last())
    } else {
        keyed_rows(names, rows.drop_last()).push(
            RowView {
                key: text_at(rows.last(), 0),
                values: row_values(names, rows.last(), names.len() as int),
            },
        )
    }
}

/// The spreadsheet whose cells hold `grid`: the first row names the columns, and the first cell of
/// each other row is its key.
pub open spec fn sheet_in(grid: Seq<Seq<Seq<char>>>, mod_id: Seq<char>) -> SheetView {
    let names = column_names(grid[0]);
    SheetView { mod_id, languages: named(names), rows: keyed_rows(names, grid.drop_first()) }
}

/// The first place of `c` in `s`.
pub open spec fn first_place(s: Seq<char>, c: char) -> Option<int>
    decreases s.len(),
{
    if s.len() == 0 {
        None
    } else {
        match first_place(s.drop_last(), c) {
            Some(i) => Some(i),
            None => if s.last() == c {
                Some(s.len() - 1)
            } else {
                None
            },
        }
    }
}

/// The last place of `c` in `s`.
pub open spec fn last_place(s: Seq<char>, c: char) -> Option<int>
    decreases s.len(),
{
    if s.len() == 0 {
        None
    } else if s.last() == c {
        Some(s.len() - 1)
    } else {
        last_place(s.drop_last(), c)
    }
}

/// The text of a cell: that under `v`. Null counts as empty, and what is no text is written as
/// JSON.
pub fn cell_text(cell: &Json) -> (r: String)
    ensures
        r@ == cell_content(cell.tree()),
{
    match cell.get("v") {
        None => String::new(),
        Some(Json::Null) => String::new(),
        Some(Json::Text(text)) => text.clone(),
        Some(other) => json_text(other),
    }
}

/// The cells of a row: the array under `c`.
pub fn cell_array<'a>(row: &'a Json) -> (r: Option<&'a Vec<Json>>)
    ensures
        match r {
            Some(items) => cells(row.tree()) == trees(items@),
            None => cells(row.tree()).len() == 0,
        },
{
    match row.get("c") {
        Some(c) => c.as_array(),
        None => None,
    }
}

/// The texts of the cells of a row.
pub fn cell_texts(row: &Json) -> (r: Vec<String>)
    ensures
        views(r@) == row_texts(row.tree()),
{
    let mut r: Vec<String> = Vec::new();
    match cell_array(row) {
        Some(items) => {
            let mut i: usize = 0;
            proof {
                lemma_trees(items@);
            }
            while i < items.len()
                invariant
                    i <= items@.len(),
                    r@.len() == i,
                    forall|k: int|
                        0 <= k < i ==> (#[trigger] r@[k])@ == cell_content(items@[k].tree()),
                decreases items@.len() - i,
            {
                r.push(cell_text(&items[i]));
                i = i + 1;
            }
        },
        None => {},
    }
    assert(views(r@) =~= row_texts(row.tree()));
    r
}

/// The texts of the cells of each row of a document, or why it has none.
pub fn grid_of(document: &Json) -> (r: Result<Vec<Vec<String>>, SheetError>)
    ensures
        match rows_of(document.tree()) {
            None => r matches Err(SheetError::NoRows),
            Some(rows) => if rows.len() == 0 {
                r matches Err(SheetError::Empty)
            } else {
                r matches Ok(grid) && grid_view(grid@) == texts_of(rows)
            },
        },
{
    let rows = match document.get("table") {
        Some(table) => match table.get("rows") {
            Some(rows) => rows.as_array(),
            None => None,
        },
        None => None,
    };
    match rows {
        None => Err(SheetError::NoRows),
        Some(rows) => {
            proof {
                lemma_trees(rows@);
            }
            if rows.len() == 0 {
                return Err(SheetError::Empty);
            }
            let mut grid: Vec<Vec<String>> = Vec::new();
            let mut i: usize = 0;
            while i < rows.len()
                invariant
                    i <= rows@.len(),
                    grid@.len() == i,
                    forall|k: int|
                        0 <= k < i ==> views((#[trigger] grid@[k])@) == row_texts(rows@[k].tree()),
                decreases rows@.len() - i,
            {
                grid.push(cell_texts(&rows[i]));
                i = i + 1;
            }
            assert(grid_view(grid@) =~= texts_of(trees(rows@)));
            Ok(grid)
        },
    }
}

/// The texts of a row by column name.
fn row_table(names: &Vec<String>, row: &Vec<String>) -> (r: Table)
    ensures
        entries(r) == row_values(views(names@), views(row@), names@.len() as int),
{
    let mut r = table_new();
    let mut i: usize = 0;
    while i < names.len()
        invariant
            i <= names@.len(),
            entries(r) == row_values(views(names@), views(row@), i as int),
        decreases names@.len() - i,
    {
        assert(views(names@)[i as int] == names@[i as int]@);
        if !is_blank(names[i].as_str()) {
            let text = if i + 1 < row.len() {
                assert(views(row@)[i + 1] == row@[i + 1]@);
                row[i + 1].clone()
            } else {
                String::new()
            };
            assert(text@ =~= text_at(views(row@), i + 1));
            table_insert(&mut r, names[i].clone(), text);
        }
        i = i + 1;
    }
    r
}

/// The names that are not blank.
fn named_columns(names: &Vec<String>) -> (r: Vec<String>)
    ensures
        views(r@) == named(views(names@)),
{
    let mut r: Vec<String> = Vec::new();
    let mut i: usize = 0;
    let ghost all = views(names@);
    while i < names.len()
        invariant
            i <= names@.len(),
            all == views(names@),
            views(r@) == named(all.take(i as int)),
        decreases names@.len() - i,
    {
        let ghost before = views(r@);
        assert(all.take(i as int + 1).drop_last() == all.take(i as int));
        assert(all.take(i as int + 1).last() == names@[i as int]@);
        if !is_blank(names[i].as_str()) {
            r.push(names[i].clone());
            assert(views(r@) == before.push(names@[i as int]@));
        }
        i = i + 1;
    }
    assert(all.take(all.len() as int) == all);
    r
}

/// The spreadsheet whose cells hold `grid`: the first row names the columns, and the first cell of
/// each other row is its key.
pub fn sheet_from(grid: &Vec<Vec<String>>, mod_id: &str) -> (r: Sheet)
    requires
        grid@.len() > 0,
    ensures
        r@ == sheet_in(grid_view(grid@), mod_id@),
{
    let ghost g = grid_view(grid@);
    let mut names: Vec<String> = Vec::new();
    let mut i: usize = 1;
    while i < grid[0].len()
        invariant
            grid@.len() > 0,
            1 <= i,
            i <= grid@[0]@.len() || i == 1,
            names@.len() == i - 1,
            forall|k: int| 0 <= k < i - 1 ==> (#[trigger] names@[k])@ == grid@[0]@[k + 1]@,
        decreases grid@[0]@.len() - i,
    {
        names.push(grid[0][i].clone());
        i = i + 1;
    }
    assert(views(names@) =~= column_names(g[0])) by {
        assert(g[0] == views(grid@[0]@));
    }
    let ghost columns = views(names@);
    let mut rows: Vec<SheetRow> = Vec::new();
    let mut j: usize = 1;
    let ghost body = g.drop_first();
    assert(body.take(0).len() == 0);
    assert(row_views(rows@) =~= keyed_rows(columns, body.take(0)));
    while j < grid.len()
        invariant
            1 <= j <= grid@.len(),
            g == grid_view(grid@),
            body == g.drop_first(),
            columns == views(names@),
            row_views(rows@) == keyed_rows(columns, body.take(j - 1)),
        decreases grid@.len() - j,
    {
        let ghost before = row_views(rows@);
        let ghost row = views(grid@[j as int]@);
        assert(body.take(j as int).drop_last() == body.take(j - 1));
        assert(body.take(j as int).last() == row) by {
            assert(body[j - 1] == g[j as int]);
        }
        let key = if grid[j].len() > 0 {
            assert(row[0] == grid@[j as int]@[0]@);
            grid[j][0].clone()
        } else {
            String::new()
        };
        assert(key@ =~= text_at(row, 0));
        if !is_blank(key.as_str()) {
            let values = row_table(&names, &grid[j]);
            let next = SheetRow { key, values };
            rows.push(next);
            assert(row_views(rows@) == before.push(next@));
        }
        j = j + 1;
    }
    assert(body.take(body.len() as int) == body);
    let languages = named_columns(&names);
    Sheet { mod_id: mod_id.to_owned(), languages, rows }
}

/// The spreadsheet in a document, or why there is none.
pub open spec fn sheet_of_document(document: JsonTree, mod_id: Seq<char>) -> Result<
    SheetView,
    SheetFault,
> {
    match rows_of(document) {
        None => Err(SheetFault::NoRows),
        Some(rows) => if rows.len() == 0 {
            Err(SheetFault::Empty)
        } else {
            Ok(sheet_in(texts_of(rows), mod_id))
        },
    }
}

/// Why a spreadsheet could not be read, as a mathematical value.
pub enum SheetFault {
    NoStart,
    NoEnd,
    Json(Seq<char>),
    NoRows,
    Empty,
}

impl View for SheetError {
    type V = SheetFault;

    open spec fn view(&self) -> SheetFault {
        match self {
            SheetError::NoStart => SheetFault::NoStart,
            SheetError::NoEnd => SheetFault::NoEnd,
            SheetError::Json(e) => SheetFault::Json(e@),
            SheetError::NoRows => SheetFault::NoRows,
            SheetError::Empty => SheetFault::Empty,
        }
    }
}

/// A result as a mathematical value.
pub open spec fn sheet_result(r: Result<Sheet, SheetError>) -> Result<SheetView, SheetFault> {
    match r {
        Ok(sheet) => Ok(sheet@),
        Err(e) => Err(e@),
    }
}

/// The spreadsheet in a document, or why there is none.
pub fn sheet_of(document: &Json, mod_id: &str) -> (r: Result<Sheet, SheetError>)
    ensures
        sheet_result(r) == sheet_of_document(document.tree(), mod_id@),
{
    match grid_of(document) {
        Ok(grid) => {
            let sheet = sheet_from(&grid, mod_id);
            Ok(sheet)
        },
        Err(e) => Err(e),
    }
}

/// The spreadsheet in a reply: the document stands between the first opening and the last closing
/// brace.
pub open spec fn sheet_in_reply(body: Seq<char>, mod_id: Seq<char>) -> Result<
    SheetView,
    SheetFault,
> {
    match (first_place(body, '{'), last_place(body, '}')) {
        (None, _) => Err(SheetFault::NoStart),
        (Some(_), None) => Err(SheetFault::NoEnd),
        (Some(start), Some(end)) => match json_document(body.subrange(start, end + 1)) {
            Err(e) => Err(SheetFault::Json(e)),
            Ok(document) => sheet_of_document(document, mod_id),
        },
    }
}

/// Whether the braces of a reply come in order: the last closing brace does not lie before the
/// first opening one, unless right before it.
pub open spec fn braces_in_order(body: Seq<char>) -> bool {
    match (first_place(body, '{'), last_place(body, '}')) {
        (Some(start), Some(end)) => start <= end + 1,
        _ => true,
    }
}

proof fn lemma_places(s: Seq<char>, c: char)
    ensures
        first_place(s, c) matches Some(i) ==> 0 <= i < s.len(),
        last_place(s, c) matches Some(i) ==> 0 <= i < s.len(),
    decreases s.len(),
{
    if s.len() > 0 {
        lemma_places(s.drop_last(), c);
    }
}

/// The first place of `c` in `v`.
fn find_first(v: &Vec<char>, c: char) -> (r: Option<usize>)
    ensures
        match r {
            Some(i) => first_place(v@, c) == Some(i as int),
            None => first_place(v@, c) is None,
        },
{
    let mut found: Option<usize> = None;
    let mut i: usize = 0;
    while i < v.len()
        invariant
            i <= v@.len(),
            match found {
                Some(k) => first_place(v@.take(i as int), c) == Some(k as int),
                None => first_place(v@.take(i as int), c) is None,
            },
        decreases v@.len() - i,
    {
        assert(v@.take(i as int + 1).drop_last() == v@.take(i as int));
        if found.is_none() && v[i] == c {
            found = Some(i);
        }
        i = i + 1;
    }
    assert(v@.take(v@.len() as int) == v@);
    found
}

/// The last place of `c` in `v`.
fn find_last(v: &Vec<char>, c: char) -> (r: Option<usize>)
    ensures
        match r {
            Some(i) => last_place(v@, c) == Some(i as int),
            None => last_place(v@, c) is None,
        },
{
    let mut i: usize = v.len();
    assert(v@.take(v@.len() as int) == v@);
    while i > 0
        invariant
            i <= v@.len(),
            last_place(v@, c) == last_place(v@.take(i as int), c),
        decreases i,
    {
        assert(v@.take(i as int).drop_last() == v@.take(i as int - 1));
        i = i - 1;
        if v[i] == c {
            return Some(i);
        }
    }
    None
}

/// Whether the braces of a reply come in order, so that [`parse`] can read it.
pub fn has_ordered_braces(body: &str) -> (r: bool)
    ensures
        r == braces_in_order(body@),
{
    let v = characters(body);
    proof {
        lemma_places(body@, '{');
        lemma_places(body@, '}');
    }
    match (find_first(&v, '{'), find_last(&v, '}')) {
        (Some(start), Some(end)) => start <= end || start - end == 1,
        _ => true,
    }
}

/// Reads the reply of the query endpoint: a JSON document in a script call.
pub fn parse(body: &str, mod_id: &str) -> (r: Result<Sheet, SheetError>)
    requires
        braces_in_order(body@),
    ensures
        sheet_result(r) == sheet_in_reply(body@, mod_id@),
{
    let v = characters(body);
    proof {
        lemma_places(body@, '{');
        lemma_places(body@, '}');
    }
    let start = match find_first(&v, '{') {
        Some(start) => start,
        None => {
            return Err(SheetError::NoStart);
        },
    };
    let end = match find_last(&v, '}') {
        Some(end) => end,
        None => {
            return Err(SheetError::NoEnd);
        },
    };
    let n = v.len();
    assert(end < n);
    let inner = string_of(&v, start, end + 1);
    match parse_json(inner.as_str()) {
        Ok(document) => sheet_of(&document, mod_id),
        Err(e) => Err(SheetError::Json(e)),
    }
}

impl SheetError {
    /// What went wrong, in words.
    pub open spec fn says(self) -> Seq<char> {
        match self {
            SheetError::NoStart => "响应里找不到 JSON 起始符"@,
            SheetError::NoEnd => "响应里找不到 JSON 结束符"@,
            SheetError::Json(_) => "解析 gviz JSON 失败"@,
            SheetError::NoRows => "响应里没有 table.rows"@,
            SheetError::Empty => "表格为空"@,
        }
    }

    /// What went wrong, in words.
    pub fn message(&self) -> (r: String)
        ensures
            r@ == self.says(),
    {
        match self {
            SheetError::NoStart => "响应里找不到 JSON 起始符".to_owned(),
            SheetError::NoEnd => "响应里找不到 JSON 结束符".to_owned(),
            SheetError::Json(_) => "解析 gviz JSON 失败".to_owned(),
            SheetError::NoRows => "响应里没有 table.rows".to_owned(),
            SheetError::Empty => "表格为空".to_owned(),
        }
    }
}

/// The first text of `e` that is not empty.
pub open spec fn first_text(e: Seq<(Seq<char>, Seq<char>)>) -> Seq<char>
    decreases e.len(),
{
    if e.len() == 0 {
        Seq::empty()
    } else if e.first().1.len() > 0 {
        e.first().1
    } else {
        first_text(e.drop_first())
    }
}

/// The reference text: the English one; where it is missing or empty, the first text in
/// any language that is not.
pub open spec fn reference_text(values: Seq<(Seq<char>, Seq<char>)>) -> Seq<char> {
    match lookup(values, "English"@) {
        Some(text) => if text.len() > 0 {
            text
        } else {
            first_text(values)
        },
        None => first_text(values),
    }
}

impl Sheet {
    /// The reference text of `row`: English, or else any language that has one.
    pub fn reference(&self, row: &SheetRow) -> (r: String)
        ensures
            r@ == reference_text(row@.values),
    {
        if let Some(text) = table_get(&row.values, "English") {
            if !text.as_str().is_empty() {
                return text.clone();
            }
        }
        let n = table_len(&row.values);
        let ghost e = entries(row.values);
        let mut i: usize = 0;
        assert(e.skip(0) == e);
        while i < n
            invariant
                i <= n == e.len(),
                e == entries(row.values),
                reference_text(e) == first_text(e),
                first_text(e) == first_text(e.skip(i as int)),
            decreases n - i,
        {
            assert(e.skip(i as int).drop_first() == e.skip(i as int + 1));
            if let Some(pair) = table_get_index(&row.values, i) {
                if !pair.1.as_str().is_empty() {
                    return pair.1.clone();
                }
            }
            i = i + 1;
        }
        let r = String::new();
        assert(r@ =~= first_text(e.skip(n as int)));
        r
    }
}

/// The names of the mods that have a spreadsheet, in words.
pub open spec fn available_text() -> Seq<char> {
    joined(sheet_ids(catalogue()), ", "@)
}

/// The names of the mods that have a spreadsheet, in words.
pub fn available() -> (r: String)
    ensures
        r@ == available_text(),
{
    join(&owned(&sheet_backed_ids()), ", ")
}

/// Why the spreadsheet of a mod cannot be fetched.
#[derive(Debug)]
pub enum FetchError {
    /// The mod has no spreadsheet.
    LocalOnly,
    /// There is no mod of this name.
    Unknown,
}

/// The address from which the spreadsheet of `mod_id` is fetched, or why there is none.
pub fn fetch(mod_id: &str) -> (r: Result<String, FetchError>)
    ensures
        match find_in(catalogue(), mod_id@) {
            Some(def) => match def.source {
                Source::Sheet { gid } => r matches Ok(url) && url@ == sheet_address(gid),
                Source::LocalOnly => r matches Err(FetchError::LocalOnly),
            },
            None => r matches Err(FetchError::Unknown),
        },
{
    match find_mod(mod_id) {
        Some(def) => match def.source {
            Source::Sheet { gid } => Ok(sheet_url(gid)),
            Source::LocalOnly => Err(FetchError::LocalOnly),
        },
        None => Err(FetchError::Unknown),
    }
}

impl FetchError {
    /// What went wrong with `mod_id`, in words.
    pub open spec fn says(self, mod_id: Seq<char>) -> Seq<char> {
        match self {
            FetchError::LocalOnly => mod_id
                + " 没有云端表格（上游未配置 Gid），只能本地编辑后用 push 上传"@,
            FetchError::Unknown => "未知模组："@ + mod_id + "（可用："@ + available_text() + "）"@,
        }
    }

    /// What went wrong with `mod_id`, in words.
    pub fn message(&self, mod_id: &str) -> (r: String)
        ensures
            r@ == self.says(mod_id@),
    {
        match self {
            FetchError::LocalOnly => mod_id.to_owned().concat(
                " 没有云端表格（上游未配置 Gid），只能本地编辑后用 push 上传",
            ),
            FetchError::Unknown => "未知模组：".to_owned().concat(mod_id).concat(
                "（可用：",
            ).concat(available().as_str()).concat("）"),
        }
    }
}

} // verus!
