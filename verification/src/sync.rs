//! Keeping the tables in step: with the spreadsheet, with what is typed, and with the repository.

use vstd::prelude::*;

use crate::args::{
    commit_message, commit_message_of, remote_path, remote_path_of, Kind, ModError, ModFault,
};
use crate::config::{catalogue, find_in, find_mod, ModDef, SheetRow, Source};
use crate::edit::{
    joined_lines, normalize_input, normalized, pair_views, reference_for, reference_in,
};
use crate::github::{file_view, RemoteFile, RemoteView};
use crate::http::opt_str;
use crate::json::{json_pretty, members, pretty_text, Json, JsonTree};
use crate::sheet::{reference_text, row_views, RowView, Sheet, SheetView};
use crate::table::{
    entries, file_text, has_key, inserted, keys, keys_of, loads_as, lookup, parse_table, progress,
    removed, table_document, table_get, table_get_index, table_insert, table_len, table_new,
    table_remove, table_text, translated, Progress, Table,
};
use crate::text::{
    decimal, decimal_text, join, joined, lines_of, opt_view, same_text, trim, trimmed, views,
};

verus! {

broadcast use {vstd::seq::group_seq_axioms, vstd::map::group_map_axioms};

/// The keys of the rows, in order.
pub open spec fn row_keys(rows: Seq<RowView>) -> Seq<Seq<char>> {
    rows.map_values(|r: RowView| r.key)
}

/// Key and reference text of each row.
pub open spec fn references_in(rows: Seq<RowView>) -> Seq<(Seq<char>, Seq<char>)> {
    rows.map_values(|r: RowView| (r.key, reference_text(r.values)))
}

/// `e` with an empty entry at the end for each of `keys` that it lacks.
pub open spec fn extended(e: Seq<(Seq<char>, Seq<char>)>, keys: Seq<Seq<char>>) -> Seq<
    (Seq<char>, Seq<char>),
>
    decreases keys.len(),
{
    if keys.len() == 0 {
        e
    } else {
        let before = extended(e, keys.drop_last());
        if has_key(before, keys.last()) {
            before
        } else {
            before.push((keys.last(), Seq::empty()))
        }
    }
}

/// Those of `keys` that are not among `others`.
pub open spec fn absent_from(keys: Seq<Seq<char>>, others: Seq<Seq<char>>) -> Seq<Seq<char>>
    decreases keys.len(),
{
    if keys.len() == 0 {
        keys
    } else if others.contains(keys.last()) {
        absent_from(keys.drop_last(), others)
    } else {
        absent_from(keys.drop_last(), others).push(keys.last())
    }
}

/// Key and reference text of each row of `sheet`.
pub fn references_of(sheet: &Sheet) -> (r: Vec<(String, String)>)
    ensures
        pair_views(r@) == references_in(sheet@.rows),
{
    let ghost wanted = references_in(sheet@.rows);
    let mut r: Vec<(String, String)> = Vec::new();
    let mut i: usize = 0;
    while i < sheet.rows.len()
        invariant
            i <= sheet.rows@.len(),
            wanted == references_in(sheet@.rows),
            pair_views(r@) == wanted.take(i as int),
        decreases sheet.rows@.len() - i,
    {
        let ghost before = pair_views(r@);
        let row = &sheet.rows[i];
        assert(sheet@.rows[i as int] == row@);
        let text = sheet.reference(row);
        r.push((row.key.clone(), text));
        assert(pair_views(r@) == before.push((row.key@, text@)));
        assert(wanted.take(i as int + 1) == wanted.take(i as int).push(wanted[i as int]));
        i = i + 1;
    }
    assert(wanted.take(wanted.len() as int) == wanted);
    r
}

/// The reference texts that a session shows: those of the spreadsheet of the mod. There are none
/// where the mod has no spreadsheet, or where it could not be fetched.
pub open spec fn references_for(source: Source, sheet: Option<SheetView>) -> Seq<
    (Seq<char>, Seq<char>),
> {
    match (source, sheet) {
        (Source::Sheet { .. }, Some(s)) => references_in(s.rows),
        _ => Seq::empty(),
    }
}

/// The reference texts that a session on a mod shows; `sheet` is its spreadsheet, where it could be
/// fetched.
pub fn session_references(source: Source, sheet: Option<&Sheet>) -> (r: Vec<(String, String)>)
    ensures
        pair_views(r@) == references_for(
            source,
            match sheet {
                Some(s) => Some(s@),
                None => None,
            },
        ),
{
    let none: Vec<(String, String)> = Vec::new();
    assert(pair_views(none@) =~= Seq::empty());
    match source {
        Source::Sheet { .. } => match sheet {
            Some(s) => references_of(s),
            None => none,
        },
        Source::LocalOnly => none,
    }
}

/// What a fetch did to a table.
#[derive(Debug)]
pub struct FetchReport {
    /// How many entries are new.
    pub added: usize,
    /// The keys that are no longer in the spreadsheet. Their entries are kept.
    pub gone: Vec<String>,
}

/// Whether `key` is the key of a row.
fn has_row(rows: &Vec<SheetRow>, key: &str) -> (r: bool)
    ensures
        r == row_keys(row_views(rows@)).contains(key@),
{
    let ghost all = row_keys(row_views(rows@));
    let mut i: usize = 0;
    while i < rows.len()
        invariant
            i <= rows@.len(),
            all == row_keys(row_views(rows@)),
            forall|k: int| 0 <= k < i ==> all[k] != key@,
        decreases rows@.len() - i,
    {
        assert(all[i as int] == rows@[i as int].key@);
        if same_text(rows[i].key.as_str(), key) {
            return true;
        }
        i = i + 1;
    }
    false
}

/// Adds an empty entry for each row of `sheet` that `table` lacks. Nothing else changes: a key that
/// the spreadsheet no longer has is kept, and reported.
pub fn merge_sheet(table: &mut Table, sheet: &Sheet) -> (r: FetchReport)
    ensures
        entries(*final(table)) == extended(entries(*old(table)), row_keys(sheet@.rows)),
        r.added == entries(*final(table)).len() - entries(*old(table)).len(),
        views(r.gone@) == absent_from(keys_of(entries(*final(table))), row_keys(sheet@.rows)),
{
    let ghost start = entries(*table);
    let ghost wanted = row_keys(sheet@.rows);
    let mut added: usize = 0;
    let mut i: usize = 0;
    assert(wanted.take(0).len() == 0);
    while i < sheet.rows.len()
        invariant
            i <= sheet.rows@.len(),
            wanted == row_keys(sheet@.rows),
            start == entries(*old(table)),
            entries(*table) == extended(start, wanted.take(i as int)),
            added == entries(*table).len() - start.len(),
            added <= i,
        decreases sheet.rows@.len() - i,
    {
        let key = &sheet.rows[i].key;
        assert(wanted[i as int] == key@);
        assert(wanted.take(i as int + 1).drop_last() == wanted.take(i as int));
        assert(wanted.take(i as int + 1).last() == key@);
        if table_get(&*table, key.as_str()).is_none() {
            let empty = String::new();
            assert(empty@ =~= Seq::<char>::empty());
            table_insert(table, key.clone(), empty);
            added = added + 1;
        }
        i = i + 1;
    }
    assert(wanted.take(wanted.len() as int) == wanted);

    let all = keys(&*table);
    let ghost names = views(all@);
    let mut gone: Vec<String> = Vec::new();
    let mut j: usize = 0;
    while j < all.len()
        invariant
            j <= all@.len(),
            names == views(all@),
            wanted == row_keys(sheet@.rows),
            views(gone@) == absent_from(names.take(j as int), wanted),
        decreases all@.len() - j,
    {
        let ghost before = views(gone@);
        assert(names.take(j as int + 1).drop_last() == names.take(j as int));
        assert(names.take(j as int + 1).last() == all@[j as int]@);
        if !has_row(&sheet.rows, all[j].as_str()) {
            gone.push(all[j].clone());
            assert(views(gone@) == before.push(all@[j as int]@));
        }
        j = j + 1;
    }
    assert(names.take(names.len() as int) == names);
    FetchReport { added, gone }
}

/// How many of the keys that are gone are named.
pub const SHOWN_KEYS: usize = 5;

/// The first names of a list, in words.
pub open spec fn first_names(names: Seq<Seq<char>>) -> Seq<char> {
    joined(
        if names.len() <= SHOWN_KEYS {
            names
        } else {
            names.take(SHOWN_KEYS as int)
        },
        ", "@,
    )
}

impl FetchReport {
    /// A remark on the keys that are gone; none where there are none.
    pub fn remark(&self) -> (r: Option<String>)
        ensures
            match r {
                Some(text) => self.gone@.len() > 0 && text@ == decimal(self.gone@.len())
                    + " 条已不在表格中（保留在本地）："@ + first_names(views(self.gone@)),
                None => self.gone@.len() == 0,
            },
    {
        if self.gone.len() == 0 {
            return None;
        }
        let mut shown: Vec<String> = Vec::new();
        let mut i: usize = 0;
        while i < self.gone.len() && i < SHOWN_KEYS
            invariant
                i <= self.gone@.len(),
                i <= SHOWN_KEYS,
                shown@.len() == i,
                forall|k: int| 0 <= k < i ==> (#[trigger] shown@[k])@ == views(self.gone@)[k],
            decreases self.gone@.len() - i,
        {
            shown.push(self.gone[i].clone());
            i = i + 1;
        }
        assert(views(shown@) =~= if self.gone@.len() <= SHOWN_KEYS {
            views(self.gone@)
        } else {
            views(self.gone@).take(SHOWN_KEYS as int)
        });
        Some(
            decimal_text(self.gone.len() as u64).concat(" 条已不在表格中（保留在本地）：").concat(
                join(&shown, ", ").as_str(),
            ),
        )
    }
}

/// `pairs` put into `e` one after the other.
pub open spec fn filled(
    e: Seq<(Seq<char>, Seq<char>)>,
    pairs: Seq<(Seq<char>, Seq<char>)>,
) -> Seq<(Seq<char>, Seq<char>)>
    decreases pairs.len(),
{
    if pairs.len() == 0 {
        e
    } else {
        inserted(filled(e, pairs.drop_last()), pairs.last().0, pairs.last().1)
    }
}

/// The table of the reference texts.
pub fn base_table(references: &Vec<(String, String)>) -> (r: Table)
    ensures
        entries(r) == filled(Seq::empty(), pair_views(references@)),
{
    let ghost all = pair_views(references@);
    let mut r = table_new();
    let mut i: usize = 0;
    assert(all.take(0).len() == 0);
    while i < references.len()
        invariant
            i <= references@.len(),
            all == pair_views(references@),
            entries(r) == filled(Seq::empty(), all.take(i as int)),
        decreases references@.len() - i,
    {
        assert(all.take(i as int + 1).drop_last() == all.take(i as int));
        assert(all.take(i as int + 1).last() == all[i as int]);
        table_insert(&mut r, references[i].0.clone(), references[i].1.clone());
        i = i + 1;
    }
    assert(all.take(all.len() as int) == all);
    r
}

/// The text of the file of the reference texts; none where it was not asked for.
pub fn base_file(base: bool, references: &Vec<(String, String)>) -> (r: Option<String>)
    ensures
        opt_view(r) == if base {
            Some(file_text(filled(Seq::empty(), pair_views(references@))))
        } else {
            None
        },
{
    if base {
        Some(table_text(&base_table(references)))
    } else {
        None
    }
}

/// The pairs, each with an empty text.
pub open spec fn emptied(pairs: Seq<(Seq<char>, Seq<char>)>) -> Seq<(Seq<char>, Seq<char>)> {
    pairs.map_values(|p: (Seq<char>, Seq<char>)| (p.0, Seq::<char>::empty()))
}

/// A table that has an empty entry for each key of `references` where it was empty.
pub open spec fn seeded(
    e: Seq<(Seq<char>, Seq<char>)>,
    references: Seq<(Seq<char>, Seq<char>)>,
) -> Seq<(Seq<char>, Seq<char>)> {
    if e.len() == 0 {
        filled(Seq::empty(), emptied(references))
    } else {
        e
    }
}

/// Gives an empty table an empty entry for each key of `references`; a table that holds something
/// stays as it is. Says whether the table was empty.
pub fn seed_table(table: &mut Table, references: &Vec<(String, String)>) -> (r: bool)
    ensures
        r == (entries(*old(table)).len() == 0),
        entries(*final(table)) == seeded(entries(*old(table)), pair_views(references@)),
{
    if table_len(&*table) != 0 {
        return false;
    }
    let ghost all = emptied(pair_views(references@));
    let mut i: usize = 0;
    assert(all.take(0).len() == 0);
    assert(entries(*table) =~= Seq::empty());
    while i < references.len()
        invariant
            i <= references@.len(),
            all == emptied(pair_views(references@)),
            entries(*table) == filled(Seq::empty(), all.take(i as int)),
        decreases references@.len() - i,
    {
        assert(all.take(i as int + 1).drop_last() == all.take(i as int));
        assert(all.take(i as int + 1).last() == all[i as int]);
        let empty = String::new();
        assert(empty@ =~= Seq::<char>::empty());
        table_insert(table, references[i].0.clone(), empty);
        i = i + 1;
    }
    assert(all.take(all.len() as int) == all);
    true
}

/// Why no session can be held.
#[derive(Debug)]
pub enum EditError {
    /// The mod is missing.
    Usage,
    /// There is no such mod.
    Mod(ModError),
}

/// The words for how a session is started.
pub const EDIT_USAGE: &'static str = "用法：i18n-editor edit <模组>";

impl EditError {
    /// Why no session can be held, in words.
    pub open spec fn says(self) -> Seq<char> {
        match self {
            EditError::Usage => EDIT_USAGE@,
            EditError::Mod(e) => e.says(),
        }
    }

    /// Why no session can be held, in words.
    pub fn message(&self) -> (r: String)
        ensures
            r@ == self.says(),
    {
        match self {
            EditError::Usage => EDIT_USAGE.to_owned(),
            EditError::Mod(e) => e.message(),
        }
    }
}

/// The mod that a session is held on: the first of the words after the command.
pub fn edit_mod(rest: &Vec<String>) -> (r: Result<ModDef, EditError>)
    ensures
        ({
            let words = views(rest@);
            if words.len() == 0 {
                r matches Err(EditError::Usage)
            } else {
                match find_in(catalogue(), words[0]) {
                    Some(def) => r matches Ok(d) && d@ == def,
                    None => r matches Err(EditError::Mod(e)) && e@ == ModFault::Unknown(words[0]),
                }
            }
        }),
{
    if rest.len() == 0 {
        return Err(EditError::Usage);
    }
    assert(views(rest@)[0] == rest@[0]@);
    match find_mod(rest[0].as_str()) {
        Some(def) => Ok(def),
        None => Err(EditError::Mod(ModError::Unknown(rest[0].clone()))),
    }
}

/// An entry as it is shown for review.
#[derive(Debug)]
pub struct ReviewEntry {
    pub key: String,
    /// The reference text in one line; none where it is empty.
    pub reference: Option<String>,
    pub text: String,
}

/// An entry as it is shown for review, as a mathematical value.
pub struct ReviewView {
    pub key: Seq<char>,
    pub reference: Option<Seq<char>>,
    pub text: Seq<char>,
}

impl View for ReviewEntry {
    type V = ReviewView;

    open spec fn view(&self) -> ReviewView {
        ReviewView { key: self.key@, reference: opt_view(self.reference), text: self.text@ }
    }
}

/// An entry as it is shown for review.
pub open spec fn reviewed(
    references: Seq<(Seq<char>, Seq<char>)>,
    entry: (Seq<char>, Seq<char>),
) -> ReviewView {
    let reference = reference_in(references, entry.0);
    ReviewView {
        key: entry.0,
        reference: if reference.len() == 0 {
            None
        } else {
            Some(joined(lines_of(reference), " ⏎ "@))
        },
        text: entry.1,
    }
}

/// The entries of a table as they are shown for review, in order.
pub fn review(table: &Table, references: &Vec<(String, String)>) -> (r: Vec<ReviewEntry>)
    ensures
        r@.len() == entries(*table).len(),
        forall|i: int|
            0 <= i < r@.len() ==> (#[trigger] r@[i])@ == reviewed(
                pair_views(references@),
                entries(*table)[i],
            ),
{
    let n = table_len(table);
    let mut r: Vec<ReviewEntry> = Vec::new();
    let mut i: usize = 0;
    while i < n
        invariant
            i <= n == entries(*table).len(),
            r@.len() == i,
            forall|k: int|
                0 <= k < i ==> (#[trigger] r@[k])@ == reviewed(
                    pair_views(references@),
                    entries(*table)[k],
                ),
        decreases n - i,
    {
        match table_get_index(table, i) {
            Some(pair) => {
                let text = reference_for(references, pair.0.as_str());
                let reference = if text.as_str().is_empty() {
                    None
                } else {
                    Some(joined_lines(text.as_str()))
                };
                r.push(ReviewEntry { key: pair.0.clone(), reference, text: pair.1.clone() });
            },
            None => {},
        }
        i = i + 1;
    }
    r
}

/// What is to be kept after a session.
#[derive(Debug)]
pub struct EditResult {
    pub progress: Progress,
    /// The new text of the file; none where nothing was set, so that the file stays untouched.
    pub text: Option<String>,
}

/// The text of the file after a session that set `changed` texts; none where it stays untouched.
pub open spec fn kept_text(e: Seq<(Seq<char>, Seq<char>)>, changed: int) -> Option<Seq<char>> {
    if changed == 0 {
        None
    } else {
        Some(file_text(e))
    }
}

/// What is to be kept of `table` after a session that set `changed` texts.
pub fn edit_result(table: &Table, changed: usize) -> (r: EditResult)
    ensures
        r.progress.total == entries(*table).len(),
        r.progress.done == translated(entries(*table)),
        r.progress.done + r.progress.missing == r.progress.total,
        opt_view(r.text) == kept_text(entries(*table), changed as int),
        r.text matches Some(text) ==> loads_as(text@, entries(*table)),
{
    let progress = progress(table);
    let text = if changed == 0 {
        None
    } else {
        Some(table_text(table))
    };
    EditResult { progress, text }
}

/// What is to be done with a single entry.
#[derive(Debug)]
pub struct SaveRequest {
    pub mod_id: String,
    pub key: String,
    /// The new text; none to show the one that is set.
    pub value: Option<String>,
}

/// What is to be done with a single entry, as a mathematical value.
pub struct SaveView {
    pub mod_id: Seq<char>,
    pub key: Seq<char>,
    pub value: Option<Seq<char>>,
}

impl View for SaveRequest {
    type V = SaveView;

    open spec fn view(&self) -> SaveView {
        SaveView { mod_id: self.mod_id@, key: self.key@, value: opt_view(self.value) }
    }
}

/// Why a single entry cannot be worked on.
#[derive(Debug)]
pub enum SaveError {
    /// The mod or the key is missing.
    Usage,
    /// There is no such mod.
    Mod(ModError),
}

/// Why a single entry cannot be worked on, as a mathematical value.
pub enum SaveFault {
    Usage,
    Mod(ModFault),
}

impl View for SaveError {
    type V = SaveFault;

    open spec fn view(&self) -> SaveFault {
        match self {
            SaveError::Usage => SaveFault::Usage,
            SaveError::Mod(e) => SaveFault::Mod(e@),
        }
    }
}

/// What the words after the command ask for, or why they ask for nothing.
pub open spec fn save_asked(words: Seq<Seq<char>>) -> Result<SaveView, SaveFault> {
    if words.len() == 0 {
        Err(SaveFault::Usage)
    } else if find_in(catalogue(), words[0]) is None {
        Err(SaveFault::Mod(ModFault::Unknown(words[0])))
    } else if words.len() == 1 {
        Err(SaveFault::Usage)
    } else {
        Ok(
            SaveView {
                mod_id: words[0],
                key: words[1],
                value: if words.len() > 2 {
                    Some(normalized(words[2]))
                } else {
                    None
                },
            },
        )
    }
}

/// What the words after the command ask for: a mod, a key, and maybe a text.
pub fn save_request(rest: &Vec<String>) -> (r: Result<SaveRequest, SaveError>)
    ensures
        match r {
            Ok(request) => save_asked(views(rest@)) == Ok::<SaveView, SaveFault>(request@),
            Err(e) => save_asked(views(rest@)) == Err::<SaveView, SaveFault>(e@),
        },
{
    if rest.len() == 0 {
        return Err(SaveError::Usage);
    }
    assert(views(rest@)[0] == rest@[0]@);
    if find_mod(rest[0].as_str()).is_none() {
        return Err(SaveError::Mod(ModError::Unknown(rest[0].clone())));
    }
    if rest.len() == 1 {
        return Err(SaveError::Usage);
    }
    assert(views(rest@)[1] == rest@[1]@);
    let value = if rest.len() > 2 {
        assert(views(rest@)[2] == rest@[2]@);
        Some(normalize_input(rest[2].as_str()))
    } else {
        None
    };
    Ok(SaveRequest { mod_id: rest[0].clone(), key: rest[1].clone(), value })
}

/// The words for how a single entry is set.
pub const SAVE_USAGE: &'static str = "用法：i18n-editor save <模组> <键> [译文]";

impl SaveError {
    /// Why the entry cannot be worked on, in words.
    pub open spec fn says(self) -> Seq<char> {
        match self {
            SaveError::Usage => SAVE_USAGE@,
            SaveError::Mod(e) => e.says(),
        }
    }

    /// Why the entry cannot be worked on, in words.
    pub fn message(&self) -> (r: String)
        ensures
            r@ == self.says(),
    {
        match self {
            SaveError::Usage => SAVE_USAGE.to_owned(),
            SaveError::Mod(e) => e.message(),
        }
    }
}

/// What was done with a single entry.
#[derive(Debug)]
pub enum SaveOutcome {
    /// It was taken out.
    Removed,
    /// Its text was set.
    Written,
    /// This is its text.
    Shown(String),
    /// There is none.
    Absent,
}

/// What was done with a single entry, as a mathematical value.
pub enum SaveOutcomeView {
    Removed,
    Written,
    Shown(Seq<char>),
    Absent,
}

impl View for SaveOutcome {
    type V = SaveOutcomeView;

    open spec fn view(&self) -> SaveOutcomeView {
        match self {
            SaveOutcome::Removed => SaveOutcomeView::Removed,
            SaveOutcome::Written => SaveOutcomeView::Written,
            SaveOutcome::Shown(text) => SaveOutcomeView::Shown(text@),
            SaveOutcome::Absent => SaveOutcomeView::Absent,
        }
    }
}

/// The entries after `request`, and what was done.
pub open spec fn saved(e: Seq<(Seq<char>, Seq<char>)>, request: SaveView) -> (
    Seq<(Seq<char>, Seq<char>)>,
    SaveOutcomeView,
) {
    match request.value {
        Some(text) => if text.len() == 0 {
            (removed(e, request.key), SaveOutcomeView::Removed)
        } else {
            (inserted(e, request.key, text), SaveOutcomeView::Written)
        },
        None => match lookup(e, request.key) {
            Some(text) => (e, SaveOutcomeView::Shown(text)),
            None => (e, SaveOutcomeView::Absent),
        },
    }
}

/// Works on a single entry: sets its text, takes it out where the new text is empty, or shows it
/// where there is no new text.
pub fn save_entry(table: &mut Table, request: &SaveRequest) -> (r: SaveOutcome)
    ensures
        (entries(*final(table)), r@) == saved(entries(*old(table)), request@),
        request@.value is None ==> *final(table) == *old(table),
{
    match &request.value {
        Some(text) => {
            if text.as_str().is_empty() {
                table_remove(table, request.key.as_str());
                SaveOutcome::Removed
            } else {
                table_insert(table, request.key.clone(), text.clone());
                SaveOutcome::Written
            }
        },
        None => match table_get(&*table, request.key.as_str()) {
            Some(text) => SaveOutcome::Shown(text.clone()),
            None => SaveOutcome::Absent,
        },
    }
}

/// A file that is kept in step with the repository.
#[derive(Debug)]
pub struct SyncFile {
    pub mod_id: String,
    pub kind: Kind,
    /// Where it is kept in the repository.
    pub path: String,
    /// The message of the commit that updates it.
    pub message: String,
}

/// A file that is kept in step with the repository, as a mathematical value.
pub struct SyncView {
    pub mod_id: Seq<char>,
    pub kind: Kind,
    pub path: Seq<char>,
    pub message: Seq<char>,
}

impl View for SyncFile {
    type V = SyncView;

    open spec fn view(&self) -> SyncView {
        SyncView {
            mod_id: self.mod_id@,
            kind: self.kind,
            path: self.path@,
            message: self.message@,
        }
    }
}

/// The file of this kind of a mod.
pub open spec fn sync_file(mod_id: Seq<char>, kind: Kind) -> SyncView {
    SyncView {
        mod_id,
        kind,
        path: remote_path_of(mod_id, kind),
        message: commit_message_of(mod_id, kind),
    }
}

/// The files of `mods` that are kept in step with the repository, in order.
pub open spec fn sync_list(mods: Seq<Seq<char>>) -> Seq<SyncView> {
    Seq::new(
        2 * mods.len(),
        |i: int|
            sync_file(
                mods[i / 2],
                if i % 2 == 0 {
                    Kind::Chinese
                } else {
                    Kind::BaseEnglish
                },
            ),
    )
}

/// The files of `mods` that are kept in step with the repository: mod by mod, first the
/// translations and then the reference texts.
pub fn sync_files(mods: &Vec<String>) -> (r: Vec<SyncFile>)
    ensures
        r@.map_values(|f: SyncFile| f@) == sync_list(views(mods@)),
        r@.len() == 2 * mods@.len(),
        forall|i: int|
            0 <= i < mods@.len() ==> (#[trigger] r@[2 * i])@ == sync_file(
                mods@[i]@,
                Kind::Chinese,
            ),
        forall|i: int|
            0 <= i < mods@.len() ==> (#[trigger] r@[2 * i + 1])@ == sync_file(
                mods@[i]@,
                Kind::BaseEnglish,
            ),
{
    let ghost all = sync_list(views(mods@));
    let mut r: Vec<SyncFile> = Vec::new();
    let mut i: usize = 0;
    while i < mods.len()
        invariant
            i <= mods@.len(),
            all == sync_list(views(mods@)),
            r@.len() == 2 * i,
            forall|k: int| 0 <= k < 2 * i ==> (#[trigger] r@[k])@ == all[k],
        decreases mods@.len() - i,
    {
        assert(views(mods@)[i as int] == mods@[i as int]@);
        assert(all[2 * i] == sync_file(mods@[i as int]@, Kind::Chinese));
        assert(all[2 * i + 1] == sync_file(mods@[i as int]@, Kind::BaseEnglish));
        r.push(file_of(mods[i].as_str(), Kind::Chinese));
        r.push(file_of(mods[i].as_str(), Kind::BaseEnglish));
        i = i + 1;
    }
    assert(r@.map_values(|f: SyncFile| f@) =~= all);
    r
}

fn file_of(mod_id: &str, kind: Kind) -> (r: SyncFile)
    ensures
        r@ == sync_file(mod_id@, kind),
{
    SyncFile {
        mod_id: mod_id.to_owned(),
        kind,
        path: remote_path(mod_id, kind),
        message: commit_message(mod_id, kind),
    }
}

/// What of a file is to be uploaded.
#[derive(Debug)]
pub enum PushContent {
    /// There is no such file.
    Missing,
    /// The file holds an empty table.
    Empty,
    /// This text.
    Ready(String),
}

/// What of a file is to be uploaded, as a mathematical value.
pub enum PushView {
    Missing,
    Empty,
    Ready(Seq<char>),
}

impl View for PushContent {
    type V = PushView;

    open spec fn view(&self) -> PushView {
        match self {
            PushContent::Missing => PushView::Missing,
            PushContent::Empty => PushView::Empty,
            PushContent::Ready(text) => PushView::Ready(text@),
        }
    }
}

/// What is to be uploaded of the file with the content `local`, or the text of the error.
pub open spec fn push_content_of(local: Option<Seq<char>>) -> Result<PushView, Seq<char>> {
    match local {
        None => Ok(PushView::Missing),
        Some(content) => match table_document(content) {
            Err(e) => Err(e),
            Ok(e) => if e.len() == 0 {
                Ok(PushView::Empty)
            } else {
                Ok(PushView::Ready(file_text(e)))
            },
        },
    }
}

/// What is to be uploaded of the file with the content `local`; none means that there is no file.
pub fn push_content(local: Option<&str>) -> (r: Result<PushContent, String>)
    ensures
        match r {
            Ok(content) => push_content_of(opt_str(local)) == Ok::<PushView, Seq<char>>(content@),
            Err(e) => push_content_of(opt_str(local)) == Err::<PushView, Seq<char>>(e@),
        },
        r matches Ok(PushContent::Ready(text)) ==> (local matches Some(content) && (
        table_document(content@) matches Ok(e) && loads_as(text@, e))),
{
    match local {
        None => Ok(PushContent::Missing),
        Some(content) => match parse_table(content) {
            Err(e) => Err(e),
            Ok(table) => {
                if table_len(&table) == 0 {
                    Ok(PushContent::Empty)
                } else {
                    Ok(PushContent::Ready(table_text(&table)))
                }
            },
        },
    }
}

/// Whether a missing file is worth a remark: only that of the translations is.
pub fn reports_missing(kind: Kind) -> (r: bool)
    ensures
        r == (kind == Kind::Chinese),
{
    match kind {
        Kind::Chinese => true,
        Kind::BaseEnglish => false,
    }
}

/// Whether two contents are the same, white space at their ends aside.
pub open spec fn same_content(a: Seq<char>, b: Seq<char>) -> bool {
    trimmed(a) == trimmed(b)
}

/// Whether the repository already has `text`, so that no commit is needed.
pub fn up_to_date(remote: &Option<RemoteFile>, text: &str) -> (r: bool)
    ensures
        r == match *remote {
            Some(file) => same_content(file@.text, text@),
            None => false,
        },
{
    match remote {
        Some(file) => same_text(trim(file.text.as_str()), trim(text)),
        None => false,
    }
}

/// What is to be done next with a file that may have to be uploaded.
#[derive(Debug)]
pub enum PushStep {
    /// Nothing more.
    Skip,
    /// Say that the file is missing, and nothing more.
    Remark,
    /// Read the file of the repository, and decide again.
    Ask,
    /// Say that the repository already has the content, and nothing more.
    Unchanged,
    /// Write this text to the repository.
    Write(String),
}

/// What is to be done next with a file that may have to be uploaded, as a mathematical value.
pub enum PushStepView {
    Skip,
    Remark,
    Ask,
    Unchanged,
    Write(Seq<char>),
}

impl View for PushStep {
    type V = PushStepView;

    open spec fn view(&self) -> PushStepView {
        match self {
            PushStep::Skip => PushStepView::Skip,
            PushStep::Remark => PushStepView::Remark,
            PushStep::Ask => PushStepView::Ask,
            PushStep::Unchanged => PushStepView::Unchanged,
            PushStep::Write(text) => PushStepView::Write(text@),
        }
    }
}

/// What is to be done next with a file of this kind whose content is `content`; `remote` is what the
/// repository has, where it was asked.
pub open spec fn push_step_of(
    content: PushView,
    kind: Kind,
    remote: Option<Option<RemoteView>>,
) -> PushStepView {
    match content {
        PushView::Missing => if kind == Kind::Chinese {
            PushStepView::Remark
        } else {
            PushStepView::Skip
        },
        PushView::Empty => PushStepView::Skip,
        PushView::Ready(text) => match remote {
            None => PushStepView::Ask,
            Some(None) => PushStepView::Write(text),
            Some(Some(file)) => if same_content(file.text, text) {
                PushStepView::Unchanged
            } else {
                PushStepView::Write(text)
            },
        },
    }
}

/// What is to be done next with a file of this kind whose content is `content`. `remote` is what
/// the repository has; none means that it was not asked yet. A file is written if and only if the
/// repository was asked and has no such file, or one that differs by more than white space at its
/// ends.
pub fn push_step(content: &PushContent, kind: Kind, remote: Option<&Option<RemoteFile>>) -> (r:
    PushStep)
    ensures
        r@ == push_step_of(
            content@,
            kind,
            match remote {
                Some(file) => Some(file_view(*file)),
                None => None,
            },
        ),
{
    match content {
        PushContent::Missing => if reports_missing(kind) {
            PushStep::Remark
        } else {
            PushStep::Skip
        },
        PushContent::Empty => PushStep::Skip,
        PushContent::Ready(text) => match remote {
            None => PushStep::Ask,
            Some(file) => if up_to_date(file, text.as_str()) {
                PushStep::Unchanged
            } else {
                PushStep::Write(text.clone())
            },
        },
    }
}

/// What a download brings.
#[derive(Debug)]
pub struct PullContent {
    /// The number of entries.
    pub count: usize,
    /// The new text of the file.
    pub text: String,
}

/// What a file of the repository with the content `remote` is written as here: the text, and the
/// number of entries.
pub open spec fn pulled(remote: Seq<char>) -> Result<(Seq<char>, nat), Seq<char>> {
    match table_document(remote) {
        Ok(e) => Ok((file_text(e), e.len())),
        Err(e) => Err(e),
    }
}

/// What a file of the repository with the content `remote` is written as here.
pub fn pull_content(remote: &str) -> (r: Result<PullContent, String>)
    ensures
        match r {
            Ok(content) => pulled(remote@) == Ok::<(Seq<char>, nat), Seq<char>>(
                (content.text@, content.count as nat),
            ),
            Err(e) => pulled(remote@) == Err::<(Seq<char>, nat), Seq<char>>(e@),
        },
{
    match parse_table(remote) {
        Ok(table) => Ok(PullContent { count: table_len(&table), text: table_text(&table) }),
        Err(e) => Err(e),
    }
}

/// What is written here of a file of the repository: nothing where the repository has none.
pub fn pull_step(remote: &Option<RemoteFile>) -> (r: Result<Option<PullContent>, String>)
    ensures
        match *remote {
            None => r matches Ok(None),
            Some(file) => match pulled(file@.text) {
                Ok(content) => r matches Ok(Some(c)) && (c.text@, c.count as nat) == content,
                Err(e) => r matches Err(words) && words@ == e,
            },
        },
{
    match remote {
        None => Ok(None),
        Some(file) => match pull_content(file.text.as_str()) {
            Ok(content) => Ok(Some(content)),
            Err(e) => Err(e),
        },
    }
}

/// The entries of a table as the members of an object.
pub open spec fn object_of(e: Seq<(Seq<char>, Seq<char>)>) -> Map<Seq<char>, JsonTree>
    decreases e.len(),
{
    if e.len() == 0 {
        Map::empty()
    } else {
        object_of(e.drop_last()).insert(e.last().0, JsonTree::Text(e.last().1))
    }
}

/// The tables, by mod, as the members of an object.
pub open spec fn tables_object(tables: Seq<(String, Table)>) -> Map<Seq<char>, JsonTree>
    decreases tables.len(),
{
    if tables.len() == 0 {
        Map::empty()
    } else {
        tables_object(tables.drop_last()).insert(
            tables.last().0@,
            JsonTree::Object(object_of(entries(tables.last().1))),
        )
    }
}

/// A table as a document.
fn table_json(table: &Table) -> (r: Json)
    ensures
        r.tree() == JsonTree::Object(object_of(entries(*table))),
{
    let n = table_len(table);
    let ghost e = entries(*table);
    let mut ms: Vec<(String, Json)> = Vec::new();
    let mut i: usize = 0;
    while i < n
        invariant
            i <= n == e.len(),
            e == entries(*table),
            members(ms@) == object_of(e.take(i as int)),
        decreases n - i,
    {
        assert(e.take(i as int + 1).drop_last() == e.take(i as int));
        match table_get_index(table, i) {
            Some(pair) => {
                let ghost before = ms@;
                ms.push((pair.0.clone(), Json::Text(pair.1.clone())));
                assert(ms@.drop_last() =~= before);
                assert(ms@.last().1.tree() == JsonTree::Text(pair.1@));
            },
            None => {},
        }
        i = i + 1;
    }
    assert(e.take(n as int) == e);
    Json::Object(ms)
}

/// The tables of several mods as one indented JSON text.
pub fn tables_text(tables: &Vec<(String, Table)>) -> (r: String)
    ensures
        r@ == pretty_text(JsonTree::Object(tables_object(tables@))),
{
    let mut ms: Vec<(String, Json)> = Vec::new();
    let mut i: usize = 0;
    while i < tables.len()
        invariant
            i <= tables@.len(),
            members(ms@) == tables_object(tables@.take(i as int)),
        decreases tables@.len() - i,
    {
        assert(tables@.take(i as int + 1).drop_last() == tables@.take(i as int));
        let ghost before = ms@;
        let json = table_json(&tables[i].1);
        let ghost tree = json.tree();
        ms.push((tables[i].0.clone(), json));
        assert(ms@.drop_last() =~= before);
        assert(ms@.last().1.tree() == tree);
        i = i + 1;
    }
    assert(tables@.take(tables@.len() as int) == tables@);
    json_pretty(&Json::Object(ms))
}

} // verus!
