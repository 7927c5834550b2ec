//! Translation tables: key/text pairs in insertion order.

use vstd::prelude::*;

use crate::text::{is_blank, blank, views};

verus! {

broadcast use vstd::seq::group_seq_axioms;

/// An ordered table of translations: it keeps insertion order, so that diffs stay readable.
pub type Table = indexmap::IndexMap<String, String>;

/// The outside type behind [`Table`].
#[verifier::external_type_specification]
#[verifier::external_body]
#[verifier::reject_recursive_types(K)]
#[verifier::reject_recursive_types(V)]
#[verifier::reject_recursive_types(S)]
pub struct ExIndexMap<K, V, S>(indexmap::IndexMap<K, V, S>);

/// What a table holds: its key/text pairs, in order.
pub uninterp spec fn entries(t: indexmap::IndexMap<String, String>) -> Seq<(Seq<char>, Seq<char>)>;

/// Whether `key` stands in `e`.
pub open spec fn has_key(e: Seq<(Seq<char>, Seq<char>)>, key: Seq<char>) -> bool {
    exists|i: int| 0 <= i < e.len() && (#[trigger] e[i]).0 == key
}

/// Where `key` stands in `e`.
pub open spec fn position(e: Seq<(Seq<char>, Seq<char>)>, key: Seq<char>) -> int {
    choose|i: int| 0 <= i < e.len() && (#[trigger] e[i]).0 == key
}

/// The text of `key` in `e`.
pub open spec fn lookup(e: Seq<(Seq<char>, Seq<char>)>, key: Seq<char>) -> Option<Seq<char>> {
    if has_key(e, key) {
        Some(e[position(e, key)].1)
    } else {
        None
    }
}

/// `e` with `key` set to `text`: in place where the key is known, else at the end.
pub open spec fn inserted(
    e: Seq<(Seq<char>, Seq<char>)>,
    key: Seq<char>,
    text: Seq<char>,
) -> Seq<(Seq<char>, Seq<char>)> {
    if has_key(e, key) {
        e.update(position(e, key), (key, text))
    } else {
        e.push((key, text))
    }
}

/// `e` without `key`; the others keep their order.
pub open spec fn removed(e: Seq<(Seq<char>, Seq<char>)>, key: Seq<char>) -> Seq<
    (Seq<char>, Seq<char>),
> {
    if has_key(e, key) {
        e.remove(position(e, key))
    } else {
        e
    }
}

/// `IndexMap::new`: a map that holds nothing.
#[verifier::external_body]
pub(crate) fn table_new() -> (r: Table)
    ensures
        entries(r) == Seq::<(Seq<char>, Seq<char>)>::empty(),
{
    indexmap::IndexMap::new()
}

/// `IndexMap::len`: the number of pairs.
#[verifier::external_body]
pub(crate) fn table_len(t: &Table) -> (r: usize)
    ensures
        r == entries(*t).len(),
{
    t.len()
}

/// `IndexMap::get`: the text of `key`, where the map holds the key.
#[verifier::external_body]
pub(crate) fn table_get<'a>(t: &'a Table, key: &str) -> (r: Option<&'a String>)
    ensures
        match r {
            Some(text) => lookup(entries(*t), key@) == Some(text@),
            None => lookup(entries(*t), key@) is None,
        },
{
    t.get(key)
}

/// `IndexMap::get_index`: the pair at `index`. No other pair of the map has its key.
#[verifier::external_body]
pub(crate) fn table_get_index<'a>(t: &'a Table, index: usize) -> (r: Option<(&'a String, &'a String)>)
    ensures
        match r {
            Some(pair) => index < entries(*t).len() && entries(*t)[index as int] == (
                pair.0@,
                pair.1@,
            ) && forall|j: int|
                0 <= j < entries(*t).len() && (#[trigger] entries(*t)[j]).0 == pair.0@ ==> j == index,
            None => index >= entries(*t).len(),
        },
{
    t.get_index(index)
}

/// `IndexMap::insert`: sets the text of `key` in place where the map holds it, else appends the
/// pair.
#[verifier::external_body]
pub(crate) fn table_insert(t: &mut Table, key: String, text: String)
    ensures
        entries(*final(t)) == inserted(entries(*old(t)), key@, text@),
{
    t.insert(key, text);
}

/// `IndexMap::shift_remove`: takes `key` out; the pairs after it move up by one.
#[verifier::external_body]
pub(crate) fn table_remove(t: &mut Table, key: &str)
    ensures
        entries(*final(t)) == removed(entries(*old(t)), key@),
{
    t.shift_remove(key);
}

/// What `serde_json::from_str` reads out of a text at [`Table`]: the pairs, or the text of the
/// error.
pub uninterp spec fn table_document(text: Seq<char>) -> Result<
    Seq<(Seq<char>, Seq<char>)>,
    Seq<char>,
>;

/// The indented text that `serde_json::to_string_pretty` writes of a table.
pub uninterp spec fn pretty_table(e: Seq<(Seq<char>, Seq<char>)>) -> Seq<char>;

/// Whether `text` reads as a table that holds `e`.
pub open spec fn loads_as(text: Seq<char>, e: Seq<(Seq<char>, Seq<char>)>) -> bool {
    table_document(text) == Ok::<Seq<(Seq<char>, Seq<char>)>, Seq<char>>(e)
}

/// `serde_json::from_str` at [`Table`]: the table in `text`, or the text of the error.
#[verifier::external_body]
fn table_from_str(text: &str) -> (r: Result<Table, String>)
    ensures
        match r {
            Ok(t) => loads_as(text@, entries(t)),
            Err(e) => table_document(text@) == Err::<Seq<(Seq<char>, Seq<char>)>, Seq<char>>(e@),
        },
{
    serde_json::from_str(text).map_err(|e| e.to_string())
}

/// `serde_json::to_string_pretty` at [`Table`]: the indented text of the table. Pairs of strings
/// written to memory always succeed, and the text, with a line feed after it, reads back as the
/// same pairs in the same order.
#[verifier::external_body]
fn table_to_string(t: &Table) -> (r: Result<String, String>)
    ensures
        match r {
            Ok(text) => text@ == pretty_table(entries(*t)) && loads_as(
                text@.push('\n'),
                entries(*t),
            ),
            Err(_) => false,
        },
{
    serde_json::to_string_pretty(t).map_err(|e| e.to_string())
}

/// Whether no key stands twice in `e`.
pub open spec fn distinct(e: Seq<(Seq<char>, Seq<char>)>) -> bool {
    forall|i: int, j: int| 0 <= i < j < e.len() ==> (#[trigger] e[i]).0 != (#[trigger] e[j]).0
}

/// The keys of `e`, in order.
pub open spec fn keys_of(e: Seq<(Seq<char>, Seq<char>)>) -> Seq<Seq<char>> {
    e.map_values(|p: (Seq<char>, Seq<char>)| p.0)
}

/// The number of pairs of `e` whose text is not blank.
pub open spec fn translated(e: Seq<(Seq<char>, Seq<char>)>) -> nat
    decreases e.len(),
{
    if e.len() == 0 {
        0
    } else {
        translated(e.drop_last()) + if blank(e.last().1) {
            0nat
        } else {
            1nat
        }
    }
}

/// The text of a table file: the indented table and a line feed.
pub open spec fn file_text(e: Seq<(Seq<char>, Seq<char>)>) -> Seq<char> {
    pretty_table(e).push('\n')
}

/// The keys of `t`, in order. None stands there twice.
pub fn keys(t: &Table) -> (r: Vec<String>)
    ensures
        views(r@) == keys_of(entries(*t)),
        distinct(entries(*t)),
{
    let mut r: Vec<String> = Vec::new();
    let mut i: usize = 0;
    let n = table_len(t);
    let ghost e = entries(*t);
    while i < n
        invariant
            i <= n == e.len(),
            e == entries(*t),
            views(r@) == keys_of(e).take(i as int),
            forall|a: int, b: int|
                0 <= a < i && 0 <= b < e.len() && a != b ==> (#[trigger] e[a]).0 != (
                #[trigger] e[b]).0,
        decreases n - i,
    {
        let ghost before = views(r@);
        match table_get_index(t, i) {
            Some(pair) => {
                r.push(pair.0.clone());
                assert(views(r@) == before.push(pair.0@));
                assert(keys_of(e).take(i as int + 1) == keys_of(e).take(i as int).push(e[i as int].0));
            },
            None => {},
        }
        i = i + 1;
    }
    assert(keys_of(e).take(n as int) == keys_of(e));
    r
}

/// A copy of `t`.
pub fn copy_table(t: &Table) -> (r: Table)
    ensures
        entries(r) == entries(*t),
{
    let n = table_len(t);
    let mut r = table_new();
    let mut i: usize = 0;
    let ghost e = entries(*t);
    assert(e.take(0) =~= Seq::empty());
    while i < n
        invariant
            i <= n == e.len(),
            e == entries(*t),
            entries(r) == e.take(i as int),
        decreases n - i,
    {
        match table_get_index(t, i) {
            Some(pair) => {
                assert(!has_key(e.take(i as int), pair.0@)) by {
                    if has_key(e.take(i as int), pair.0@) {
                        let k = choose|k: int|
                            0 <= k < i && (#[trigger] e.take(i as int)[k]).0 == pair.0@;
                        assert(e[k].0 == pair.0@);
                    }
                }
                assert(e.take(i as int + 1) =~= e.take(i as int).push(e[i as int]));
                table_insert(&mut r, pair.0.clone(), pair.1.clone());
            },
            None => {},
        }
        i = i + 1;
    }
    assert(e.take(n as int) =~= e);
    r
}

/// How far a table is translated.
#[derive(Debug, Clone, Copy, PartialEq, Eq)]
pub struct Progress {
    /// The number of entries.
    pub total: usize,
    /// The entries whose text is not blank.
    pub done: usize,
    /// The entries whose text is blank.
    pub missing: usize,
}

/// How far `t` is translated.
pub fn progress(t: &Table) -> (r: Progress)
    ensures
        r.total == entries(*t).len(),
        r.done == translated(entries(*t)),
        r.done + r.missing == r.total,
{
    let n = table_len(t);
    let mut done: usize = 0;
    let mut i: usize = 0;
    let ghost e = entries(*t);
    while i < n
        invariant
            i <= n == e.len(),
            e == entries(*t),
            done == translated(e.take(i as int)),
            done <= i,
        decreases n - i,
    {
        match table_get_index(t, i) {
            Some(pair) => {
                if !is_blank(pair.1.as_str()) {
                    done = done + 1;
                }
            },
            None => {},
        }
        assert(e.take(i as int + 1).drop_last() == e.take(i as int));
        i = i + 1;
    }
    assert(e.take(n as int) == e);
    Progress { total: n, done, missing: n - done }
}

/// How far a table is translated that may be unreadable: one that is counts as empty.
pub fn shown_progress(loaded: Option<&Table>) -> (r: Progress)
    ensures
        match loaded {
            Some(t) => r.total == entries(*t).len() && r.done == translated(entries(*t)),
            None => r.total == 0 && r.done == 0,
        },
        r.done + r.missing == r.total,
{
    match loaded {
        Some(t) => progress(t),
        None => Progress { total: 0, done: 0, missing: 0 },
    }
}

/// The text of the file in which `t` is kept.
pub fn table_text(t: &Table) -> (r: String)
    ensures
        r@ == file_text(entries(*t)),
        loads_as(r@, entries(*t)),
{
    let mut r = table_to_string(t).unwrap();
    r.push('\n');
    r
}

/// The table in `text`, or why there is none.
pub fn parse_table(text: &str) -> (r: Result<Table, String>)
    ensures
        match r {
            Ok(t) => loads_as(text@, entries(t)),
            Err(e) => table_document(text@) == Err::<Seq<(Seq<char>, Seq<char>)>, Seq<char>>(e@),
        },
{
    table_from_str(text)
}

/// The table of a file with the content `text`; an empty one where there is no file.
pub fn load_table(text: Option<&str>) -> (r: Result<Table, String>)
    ensures
        match text {
            None => r matches Ok(t) && entries(t).len() == 0,
            Some(content) => match r {
                Ok(t) => loads_as(content@, entries(t)),
                Err(e) => table_document(content@) == Err::<
                    Seq<(Seq<char>, Seq<char>)>,
                    Seq<char>,
                >(e@),
            },
        },
{
    match text {
        None => Ok(table_new()),
        Some(content) => parse_table(content),
    }
}

} // verus!
