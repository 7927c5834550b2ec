//! Laws of the tables, of the session, and of the steps that keep the tables in step.

use vstd::prelude::*;

use crate::args::{commit_message_of, remote_path_of, Kind, ModFault};
use crate::config::{catalogue, find_in, Source};
use crate::edit::{pair_views, reference_in, untranslated, Round, SessionView};
use crate::github::RemoteView;
use crate::json::JsonTree;
use crate::laws::{
    law_blank, law_insert, law_reference, law_remove, law_trim_twice, lemma_keys, lemma_position,
    session_after, session_ok, without_repeats,
};
use crate::laws_text::{all_of, law_trim_is_unique, law_trim_takes_white_space, wraps};
use crate::sheet::{first_text, reference_text, RowView, SheetView};
use crate::sync::{
    absent_from, emptied, extended, filled, first_names, kept_text, object_of, pulled, push_content_of, push_step_of,
    references_for, references_in, reviewed, row_keys, same_content, save_asked, saved, seeded, sync_list,
    tables_object,
    PushStepView, PushView, SaveFault, SaveOutcomeView, SaveView,
};
use crate::table::{
    distinct, entries, file_text, has_key, inserted, keys_of, loads_as, lookup, position,
    pretty_table, table_document, translated, Table,
};
use crate::text::{joined, lines_of, trimmed, views, whitespace, Class};

verus! {

broadcast use {vstd::seq::group_seq_axioms, vstd::map::group_map_axioms};

/// An entry of a table is found under its key, and nothing else is.
pub proof fn law_lookup(e: Seq<(Seq<char>, Seq<char>)>, i: int, key: Seq<char>)
    requires
        distinct(e),
    ensures
        0 <= i < e.len() ==> lookup(e, e[i].0) == Some(e[i].1),
        lookup(e, key) is Some <==> exists|k: int| 0 <= k < e.len() && (#[trigger] e[k]).0 == key,
{
    if 0 <= i < e.len() {
        assert(has_key(e, e[i].0));
        lemma_position(e, e[i].0);
    }
}

/// The translated entries are counted one by one: those whose text holds more than white space.
pub proof fn law_translated(
    a: Seq<(Seq<char>, Seq<char>)>,
    b: Seq<(Seq<char>, Seq<char>)>,
    entry: (Seq<char>, Seq<char>),
)
    ensures
        translated(Seq::empty()) == 0,
        translated(a + b) == translated(a) + translated(b),
        translated(seq![entry]) == 1 <==> exists|i: int|
            0 <= i < entry.1.len() && !whitespace(#[trigger] entry.1[i]),
        translated(seq![entry]) <= 1,
    decreases b.len(),
{
    law_blank(entry.1);
    assert(seq![entry].drop_last() =~= Seq::<(Seq<char>, Seq<char>)>::empty());
    assert(translated(seq![entry].drop_last()) == 0);
    if b.len() > 0 {
        law_translated(a, b.drop_last(), entry);
        assert((a + b).drop_last() =~= a + b.drop_last());
        assert((a + b).last() == b.last());
    } else {
        assert(a + b =~= a);
    }
}

/// The first text that is not empty is taken, and there is none where all are empty.
pub proof fn law_first_text(e: Seq<(Seq<char>, Seq<char>)>, at: int)
    ensures
        0 <= at < e.len() && e[at].1.len() > 0 && (forall|k: int|
            0 <= k < at ==> (#[trigger] e[k]).1.len() == 0) ==> first_text(e) == e[at].1,
        (forall|k: int| 0 <= k < e.len() ==> (#[trigger] e[k]).1.len() == 0) ==> first_text(
            e,
        ).len() == 0,
    decreases e.len(),
{
    if e.len() > 0 {
        let rest = e.drop_first();
        law_first_text(rest, at - 1);
        assert forall|k: int| 0 <= k < rest.len() implies #[trigger] rest[k] == e[k + 1] by {}
        if at == 0 {
            assert(e[0] == e.first());
        } else if 0 < at < e.len() && e[at].1.len() > 0 && (forall|k: int|
            0 <= k < at ==> (#[trigger] e[k]).1.len() == 0) {
            assert(e[0].1.len() == 0);
            assert forall|k: int| 0 <= k < at - 1 implies (#[trigger] rest[k]).1.len() == 0 by {
                assert(e[k + 1].1.len() == 0);
            }
        }
        if forall|k: int| 0 <= k < e.len() ==> (#[trigger] e[k]).1.len() == 0 {
            assert(e[0].1.len() == 0);
        }
    }
}

/// The references of a sheet are those of its rows, one for each and in their order: the key, and
/// the English text where there is one that is not empty. Only where there is none, the first text
/// in another language is taken; where all are empty, the reference is.
pub proof fn law_references(rows: Seq<RowView>, i: int, other: int)
    requires
        0 <= i < rows.len(),
        distinct(rows[i].values),
    ensures
        references_in(rows).len() == rows.len(),
        references_in(rows)[i].0 == rows[i].key,
        lookup(rows[i].values, "English"@) matches Some(t) ==> t.len() > 0 ==> references_in(
            rows,
        )[i].1 == t,
        ({
            let values = rows[i].values;
            let english = lookup(values, "English"@);
            &&& (english is None || english->0.len() == 0) && 0 <= other < values.len()
                && values[other].1.len() > 0 && (forall|k: int|
                0 <= k < other ==> (#[trigger] values[k]).1.len() == 0) ==> references_in(rows)[i].1
                == values[other].1
            &&& (forall|k: int| 0 <= k < values.len() ==> (#[trigger] values[k]).1.len() == 0)
                ==> references_in(rows)[i].1.len() == 0
        }),
{
    let values = rows[i].values;
    law_first_text(values, other);
    law_reference(values);
    if references_in(rows)[i].1.len() > 0 {
        let k = choose|k: int|
            0 <= k < values.len() && (#[trigger] values[k]).1 == reference_text(values);
        assert(values[k].1.len() > 0);
    }
}

/// A session shows the references of the spreadsheet of its mod, and none where the mod has no
/// spreadsheet or it could not be fetched.
pub proof fn law_session_references(gid: u64, sheet: SheetView, i: int)
    ensures
        references_for(Source::Sheet { gid }, Some(sheet)).len() == sheet.rows.len(),
        0 <= i < sheet.rows.len() ==> references_for(Source::Sheet { gid }, Some(sheet))[i]
            == references_in(sheet.rows)[i] && references_for(Source::Sheet { gid }, Some(sheet))[i].0
            == sheet.rows[i].key,
        references_for(Source::Sheet { gid }, None).len() == 0,
        references_for(Source::LocalOnly, Some(sheet)).len() == 0,
        references_for(Source::LocalOnly, None).len() == 0,
{
}

/// The keys that are missed are found one by one, in order.
pub proof fn law_absent(
    a: Seq<Seq<char>>,
    b: Seq<Seq<char>>,
    others: Seq<Seq<char>>,
    key: Seq<char>,
)
    ensures
        absent_from(a + b, others) == absent_from(a, others) + absent_from(b, others),
        absent_from(seq![key], others) == if others.contains(key) {
            Seq::empty()
        } else {
            seq![key]
        },
    decreases b.len(),
{
    assert(seq![key].drop_last() =~= Seq::<Seq<char>>::empty());
    assert(absent_from(seq![key].drop_last(), others) =~= Seq::<Seq<char>>::empty());
    assert(Seq::<Seq<char>>::empty().push(key) =~= seq![key]);
    if b.len() > 0 {
        law_absent(a, b.drop_last(), others, key);
        assert((a + b).drop_last() =~= a + b.drop_last());
        assert((a + b).last() == b.last());
        assert(absent_from(a + b, others) =~= absent_from(a, others) + absent_from(b, others));
    } else {
        assert(a + b =~= a);
        assert(absent_from(a, others) + absent_from(b, others) =~= absent_from(a, others));
    }
}

/// A table filled from pairs has their keys, each where it first occurs, and of two pairs with one
/// key the text of the later.
pub proof fn law_filled(pairs: Seq<(Seq<char>, Seq<char>)>, i: int)
    ensures
        distinct(filled(Seq::empty(), pairs)),
        keys_of(filled(Seq::empty(), pairs)) == without_repeats(keys_of(pairs)),
        0 <= i < pairs.len() && (forall|k: int|
            i < k < pairs.len() ==> (#[trigger] pairs[k]).0 != pairs[i].0) ==> lookup(
            filled(Seq::empty(), pairs),
            pairs[i].0,
        ) == Some(pairs[i].1),
    decreases pairs.len(),
{
    if pairs.len() > 0 {
        let short = pairs.drop_last();
        let before = filled(Seq::empty(), short);
        let last = pairs.last();
        law_filled(short, i);
        law_insert(before, last.0, last.1);
        assert(keys_of(pairs).drop_last() =~= keys_of(short));
        assert(keys_of(pairs).last() == last.0);
        lemma_keys(before, last.0);
        lemma_filled_keys(short, last.0);
        if 0 <= i < pairs.len() - 1 && (forall|k: int|
            i < k < pairs.len() ==> (#[trigger] pairs[k]).0 != pairs[i].0) {
            assert(pairs[pairs.len() - 1].0 != pairs[i].0);
            assert forall|k: int| i < k < short.len() implies (#[trigger] short[k]).0
                != short[i].0 by {
                assert(pairs[k].0 != pairs[i].0);
            }
            assert(short[i] == pairs[i]);
        }
    } else {
        assert(keys_of(filled(Seq::empty(), pairs)) =~= without_repeats(keys_of(pairs)));
    }
}

proof fn lemma_filled_keys(pairs: Seq<(Seq<char>, Seq<char>)>, key: Seq<char>)
    ensures
        has_key(filled(Seq::empty(), pairs), key) <==> keys_of(pairs).contains(key),
    decreases pairs.len(),
{
    if pairs.len() > 0 {
        let short = pairs.drop_last();
        let before = filled(Seq::empty(), short);
        law_filled(short, 0);
        law_insert(before, pairs.last().0, pairs.last().1);
        lemma_filled_keys(short, key);
        assert(keys_of(pairs) =~= keys_of(short).push(pairs.last().0));
        let f = inserted(before, pairs.last().0, pairs.last().1);
        if key != pairs.last().0 {
            assert(lookup(f, key) == lookup(before, key));
            if keys_of(pairs).contains(key) {
                let k = choose|k: int|
                    0 <= k < keys_of(pairs).len() && keys_of(pairs)[k] == key;
                assert(keys_of(short)[k] == key);
            }
            if keys_of(short).contains(key) {
                let k = choose|k: int|
                    0 <= k < keys_of(short).len() && keys_of(short)[k] == key;
                assert(keys_of(pairs)[k] == key);
            }
        } else {
            assert(lookup(f, key) is Some);
            assert(keys_of(pairs)[pairs.len() - 1] == key);
        }
    }
}

/// Two contents are the same exactly where they agree character for character, white space at
/// their ends aside.
pub proof fn law_same_content(a: Seq<char>, b: Seq<char>, inner: Seq<char>)
    ensures
        same_content(a, b) ==> exists|s: Seq<char>| #[trigger] is_core(a, s) && is_core(b, s),
        is_core(a, inner) && is_core(b, inner) ==> same_content(a, b),
        same_content(a, a),
        same_content(a, b) && tight_ends(a) && tight_ends(b) ==> a == b,
{
    lemma_core(a);
    lemma_core(b);
    if is_core(a, inner) && is_core(b, inner) {
        lemma_core_trims(a, inner);
        lemma_core_trims(b, inner);
    }
    if tight_ends(a) {
        law_trim_is_unique(Seq::empty(), a, Seq::empty());
        assert(Seq::<char>::empty() + a + Seq::<char>::empty() =~= a);
    }
    if tight_ends(b) {
        law_trim_is_unique(Seq::empty(), b, Seq::empty());
        assert(Seq::<char>::empty() + b + Seq::<char>::empty() =~= b);
    }
}

/// Whether `s` holds nothing but white space.
pub open spec fn all_white(s: Seq<char>) -> bool {
    forall|i: int| 0 <= i < s.len() ==> whitespace(#[trigger] s[i])
}

/// Whether `s` has no white space at its ends.
pub open spec fn tight_ends(s: Seq<char>) -> bool {
    s.len() > 0 ==> !whitespace(s.first()) && !whitespace(s.last())
}

/// Whether `a` is `s` with white space before and after it.
pub open spec fn is_core(a: Seq<char>, s: Seq<char>) -> bool {
    exists|before: Seq<char>, after: Seq<char>|
        all_white(before) && all_white(after) && #[trigger] wraps(a, before, s, after)
}

proof fn lemma_core(a: Seq<char>)
    ensures
        is_core(a, trimmed(a)),
{
    law_trim_takes_white_space(a);
    let (before, after) = choose|before: Seq<char>, after: Seq<char>|
        all_of(before, Class::Space) && all_of(after, Class::Space) && #[trigger] wraps(
            a,
            before,
            trimmed(a),
            after,
        );
    assert forall|i: int| 0 <= i < before.len() implies whitespace(#[trigger] before[i]) by {
        assert(Class::Space.has(before[i]));
    }
    assert forall|i: int| 0 <= i < after.len() implies whitespace(#[trigger] after[i]) by {
        assert(Class::Space.has(after[i]));
    }
}

proof fn lemma_core_trims(a: Seq<char>, s: Seq<char>)
    requires
        is_core(a, s),
    ensures
        trimmed(a) == trimmed(s),
{
    let (before, after) = choose|before: Seq<char>, after: Seq<char>|
        all_white(before) && all_white(after) && #[trigger] wraps(a, before, s, after);
    lemma_core(s);
    let (b, c) = choose|b: Seq<char>, c: Seq<char>|
        all_white(b) && all_white(c) && #[trigger] wraps(s, b, trimmed(s), c);
    law_trim_twice(s);
    let first = before + b;
    let last = c + after;
    assert forall|i: int| 0 <= i < first.len() implies whitespace(#[trigger] first[i]) by {
        if i < before.len() {
            assert(first[i] == before[i]);
        } else {
            assert(first[i] == b[i - before.len()]);
        }
    }
    assert forall|i: int| 0 <= i < last.len() implies whitespace(#[trigger] last[i]) by {
        if i < c.len() {
            assert(last[i] == c[i]);
        } else {
            assert(last[i] == after[i - c.len()]);
        }
    }
    law_trim_is_unique(first, trimmed(s), last);
    assert(first + trimmed(s) + last =~= a);
}

/// The files of two tables are the same content only where the tables hold the same entries, where
/// the text of a table has no white space at its ends.
pub proof fn law_same_files(e: Seq<(Seq<char>, Seq<char>)>, f: Seq<(Seq<char>, Seq<char>)>)
    requires
        loads_as(file_text(e), e),
        loads_as(file_text(f), f),
        tight_ends(pretty_table(e)),
        tight_ends(pretty_table(f)),
    ensures
        same_content(file_text(e), file_text(f)) <==> e == f,
{
    lemma_file_core(e);
    lemma_file_core(f);
}

proof fn lemma_file_core(e: Seq<(Seq<char>, Seq<char>)>)
    requires
        tight_ends(pretty_table(e)),
    ensures
        trimmed(file_text(e)) == pretty_table(e),
{
    let none = Seq::<char>::empty();
    law_trim_is_unique(none, pretty_table(e), seq!['\n']);
    assert(none + pretty_table(e) + seq!['\n'] =~= file_text(e));
}

/// A file is written exactly where it is ready, the repository was asked, and what the repository
/// has, if anything, differs by more than white space at its ends; and what is written is the text
/// that is ready. It is passed over as unchanged exactly where it does not differ. A missing file
/// is remarked on only where it is that of the translations; an empty one never is.
pub proof fn law_push_step(
    content: PushView,
    kind: Kind,
    remote: Option<Option<RemoteView>>,
    text: Seq<char>,
)
    ensures
        push_step_of(content, kind, remote) == PushStepView::Write(text) <==> content
            == PushView::Ready(text) && (remote matches Some(file) && (file matches Some(f)
            ==> trimmed(f.text) != trimmed(text))),
        push_step_of(content, kind, remote) is Unchanged <==> (content matches PushView::Ready(t)
            && (remote matches Some(Some(f)) && trimmed(f.text) == trimmed(t))),
        push_step_of(content, kind, remote) is Ask <==> content is Ready && remote is None,
        push_step_of(content, kind, remote) is Remark <==> content is Missing && kind
            == Kind::Chinese,
        push_step_of(content, kind, remote) is Skip <==> content is Empty || content is Missing
            && kind == Kind::BaseEnglish,
{
}

/// What is uploaded of a file holds the entries of the file, all of them and no others; a file
/// without entries is not uploaded, and an unreadable one is an error.
pub proof fn law_push_content(local: Seq<char>, e: Seq<(Seq<char>, Seq<char>)>, text: Seq<char>)
    ensures
        push_content_of(None) == Ok::<PushView, Seq<char>>(PushView::Missing),
        table_document(local) is Err <==> push_content_of(Some(local)) is Err,
        loads_as(local, e) && e.len() == 0 ==> push_content_of(Some(local)) == Ok::<
            PushView,
            Seq<char>,
        >(PushView::Empty),
        loads_as(local, e) && loads_as(file_text(e), e) && push_content_of(Some(local)) == Ok::<
            PushView,
            Seq<char>,
        >(PushView::Ready(text)) ==> loads_as(text, e),
        loads_as(local, e) && e.len() > 0 ==> push_content_of(Some(local)) matches Ok(
            PushView::Ready(_),
        ),
{
}

/// What a download writes holds the entries of the remote file, all of them and no others, and
/// counts them.
pub proof fn law_pulled(remote: Seq<char>, e: Seq<(Seq<char>, Seq<char>)>)
    ensures
        pulled(remote) is Err <==> table_document(remote) is Err,
        loads_as(remote, e) ==> (pulled(remote) matches Ok(content) && content.1 == e.len() && (
        loads_as(file_text(e), e) ==> loads_as(content.0, e))),
{
}

/// After a session the file is written exactly where a text was set, and then it holds the entries
/// of the table.
pub proof fn law_kept_text(e: Seq<(Seq<char>, Seq<char>)>, changed: int)
    requires
        loads_as(file_text(e), e),
    ensures
        kept_text(e, changed) is None <==> changed == 0,
        kept_text(e, changed) matches Some(text) ==> loads_as(text, e),
{
}

/// The object that is printed of a table has exactly the entries of the table, empty texts
/// included.
pub proof fn law_object(e: Seq<(Seq<char>, Seq<char>)>, key: Seq<char>)
    requires
        distinct(e),
    ensures
        object_of(e).dom().contains(key) <==> has_key(e, key),
        lookup(e, key) matches Some(text) ==> object_of(e)[key] == JsonTree::Text(text),
    decreases e.len(),
{
    if e.len() > 0 {
        let short = e.drop_last();
        assert(distinct(short));
        law_object(short, key);
        assert(short.push(e.last()) =~= e);
        if has_key(e, key) {
            lemma_position(e, key);
            let p = position(e, key);
            if p < short.len() {
                assert(short[p].0 == key);
                lemma_position(short, key);
                assert(e[p].0 != e[e.len() - 1].0);
            }
        }
        if has_key(short, key) {
            lemma_position(short, key);
            assert(e[position(short, key)].0 == key);
        }
        if key == e.last().0 {
            assert(e[e.len() - 1].0 == key);
        }
    }
}

/// What is printed of all tables has exactly the mods, each with the object of its table.
pub proof fn law_tables_object(tables: Seq<(String, Table)>, i: int, name: Seq<char>)
    ensures
        tables_object(tables).dom().contains(name) <==> exists|k: int|
            0 <= k < tables.len() && (#[trigger] tables[k]).0@ == name,
        0 <= i < tables.len() && (forall|k: int|
            i < k < tables.len() ==> (#[trigger] tables[k]).0@ != tables[i].0@) ==> tables_object(
            tables,
        )[tables[i].0@] == JsonTree::Object(object_of(entries(tables[i].1))),
    decreases tables.len(),
{
    if tables.len() > 0 {
        let short = tables.drop_last();
        law_tables_object(short, i, name);
        assert forall|k: int| 0 <= k < short.len() implies #[trigger] short[k] == tables[k] by {}
        assert(tables[tables.len() - 1] == tables.last());
        if exists|k: int| 0 <= k < tables.len() && (#[trigger] tables[k]).0@ == name {
            let k = choose|k: int| 0 <= k < tables.len() && (#[trigger] tables[k]).0@ == name;
            if k < short.len() {
                assert(short[k].0@ == name);
            }
        }
        if 0 <= i < tables.len() - 1 && (forall|k: int|
            i < k < tables.len() ==> (#[trigger] tables[k]).0@ != tables[i].0@) {
            assert(tables[tables.len() - 1].0@ != tables[i].0@);
            assert forall|k: int| i < k < short.len() implies (#[trigger] short[k]).0@
                != short[i].0@ by {
                assert(tables[k].0@ != tables[i].0@);
            }
            assert(short[i] == tables[i]);
        }
    }
}

/// What is set for a key is what is shown for it afterwards; an empty text takes the key out; to
/// show a key changes nothing. No other entry is touched.
pub proof fn law_save(
    e: Seq<(Seq<char>, Seq<char>)>,
    mod_id: Seq<char>,
    key: Seq<char>,
    text: Seq<char>,
    other: Seq<char>,
)
    requires
        distinct(e),
    ensures
        ({
            let set = SaveView { mod_id, key, value: Some(text) };
            let show = SaveView { mod_id, key, value: None };
            let (after, outcome) = saved(e, set);
            &&& distinct(after)
            &&& text.len() > 0 ==> outcome is Written && saved(after, show).1
                == SaveOutcomeView::Shown(text)
            &&& text.len() == 0 ==> outcome is Removed && saved(after, show).1
                == SaveOutcomeView::Absent
            &&& other != key ==> lookup(after, other) == lookup(e, other)
            &&& saved(e, show).0 == e
            &&& saved(e, show).1 == match lookup(e, key) {
                Some(t) => SaveOutcomeView::Shown(t),
                None => SaveOutcomeView::Absent,
            }
            &&& text.len() > 0 && has_key(e, key) ==> keys_of(after) == keys_of(e)
            &&& text.len() == 0 && !has_key(e, key) ==> after == e
        }),
{
    law_insert(e, key, text);
    law_remove(e, key);
}

/// A single entry is worked on exactly where a mod of the catalogue and a key are named; they are
/// taken as they are, and so is the text but for marks and line ends around it.
pub proof fn law_save_request(words: Seq<Seq<char>>)
    ensures
        save_asked(words) is Ok <==> words.len() >= 2 && find_in(catalogue(), words[0]) is Some,
        save_asked(words) matches Ok(request) ==> request.mod_id == words[0] && request.key
            == words[1] && (request.value is Some <==> words.len() > 2),
        words.len() > 2 && find_in(catalogue(), words[0]) is Some && words[2].len() > 0
            && words[2].first() != '\u{feff}' && words[2].last() != '\r' && words[2].last() != '\n'
            ==> (save_asked(words) matches Ok(request) && request.value == Some(words[2])),
        words.len() > 0 && find_in(catalogue(), words[0]) is None ==> save_asked(words) == Err::<
            SaveView,
            SaveFault,
        >(SaveFault::Mod(ModFault::Unknown(words[0]))),
        words.len() == 0 ==> save_asked(words) == Err::<SaveView, SaveFault>(SaveFault::Usage),
        words.len() == 1 && find_in(catalogue(), words[0]) is Some ==> save_asked(words) == Err::<
            SaveView,
            SaveFault,
        >(SaveFault::Usage),
{
}

/// The reference of a key is that of the first pair with the key; a key without one has none.
pub proof fn law_reference_of_key(pairs: Seq<(Seq<char>, Seq<char>)>, key: Seq<char>, at: int)
    ensures
        0 <= at < pairs.len() && pairs[at].0 == key && (forall|k: int|
            0 <= k < at ==> (#[trigger] pairs[k]).0 != key) ==> reference_in(pairs, key)
            == pairs[at].1,
        (forall|k: int| 0 <= k < pairs.len() ==> (#[trigger] pairs[k]).0 != key) ==> reference_in(
            pairs,
            key,
        ).len() == 0,
    decreases pairs.len(),
{
    if pairs.len() > 0 {
        let rest = pairs.drop_first();
        law_reference_of_key(rest, key, at - 1);
        assert forall|k: int| 0 <= k < rest.len() implies #[trigger] rest[k] == pairs[k + 1] by {}
        assert(pairs[0] == pairs.first());
        if 0 < at < pairs.len() && pairs[at].0 == key && (forall|k: int|
            0 <= k < at ==> (#[trigger] pairs[k]).0 != key) {
            assert(pairs[0].0 != key);
            assert forall|k: int| 0 <= k < at - 1 implies (#[trigger] rest[k]).0 != key by {
                assert(pairs[k + 1].0 != key);
            }
        }
        if forall|k: int| 0 <= k < pairs.len() ==> (#[trigger] pairs[k]).0 != key {
            assert(pairs[0].0 != key);
        }
    }
}

/// A review shows each entry as it is, under its key, with all lines of the reference of the key in
/// one, and without one exactly where the reference is empty.
pub proof fn law_review(
    references: Seq<(Seq<char>, Seq<char>)>,
    entry: (Seq<char>, Seq<char>),
)
    ensures
        reviewed(references, entry).key == entry.0,
        reviewed(references, entry).text == entry.1,
        reviewed(references, entry).reference is None <==> reference_in(references, entry.0).len()
            == 0,
        reviewed(references, entry).reference matches Some(line) ==> line == joined(
            lines_of(reference_in(references, entry.0)),
            " ⏎ "@,
        ),
{
}

/// A key still needs a text exactly where it has none, or one of nothing but white space.
pub proof fn law_untranslated(e: Seq<(Seq<char>, Seq<char>)>, key: Seq<char>)
    ensures
        untranslated(e, key) <==> (lookup(e, key) matches Some(text) ==> forall|i: int|
            0 <= i < text.len() ==> whitespace(#[trigger] text[i])),
{
    if let Some(text) = lookup(e, key) {
        law_blank(text);
    }
}

/// Whether two sessions differ at most in the entry that is shown.
pub open spec fn only_moved(s: SessionView, t: SessionView) -> bool {
    t.entries == s.entries && t.keys == s.keys && t.references == s.references && t.changed
        == s.changed
}

/// An empty input skips exactly one entry and changes nothing else.
pub proof fn law_session_skip(s: SessionView)
    requires
        session_ok(s),
        s.index < s.keys.len(),
    ensures
        only_moved(s, s.after(Seq::empty()).0),
        s.after(Seq::empty()).0.index == s.index + 1,
        s.after(Seq::empty()).1 == Round::Next,
{
}

/// The commands of a session change no entry: `:n` goes to the next entry and stays at the last,
/// `:p` goes to the one before and stays at the first, and `:q` ends the session where it is.
pub proof fn law_session_moves(s: SessionView)
    requires
        session_ok(s),
        s.index < s.keys.len(),
    ensures
        only_moved(s, s.after(":n"@).0),
        s.index + 1 < s.keys.len() ==> s.after(":n"@).0.index == s.index + 1,
        s.index + 1 == s.keys.len() ==> s.after(":n"@).0.index == s.index,
        s.after(":n"@).1 == Round::Next,
        only_moved(s, s.after(":p"@).0),
        s.index > 0 ==> s.after(":p"@).0.index == s.index - 1,
        s.index == 0 ==> s.after(":p"@).0.index == 0,
        s.after(":p"@).1 == Round::Next,
        only_moved(s, s.after(":q"@).0),
        s.after(":q"@).0.index == s.index,
        s.after(":q"@).1 == Round::Quit,
{
    reveal_strlit(":n");
    reveal_strlit(":p");
    reveal_strlit(":q");
    assert(":n"@[1] == 'n' && ":p"@[1] == 'p' && ":q"@[1] == 'q');
}

/// `=` takes the reference of the shown key over as its text and goes on to the next entry; where
/// there is no reference, nothing changes.
pub proof fn law_session_takes_reference(s: SessionView, other: Seq<char>)
    requires
        session_ok(s),
        s.index < s.keys.len(),
    ensures
        ({
            let reference = reference_in(s.references, s.keys[s.index]);
            let (t, round) = s.after("="@);
            if reference.len() == 0 {
                t == s && round == Round::NoReference
            } else {
                &&& lookup(t.entries, s.keys[s.index]) == Some(reference)
                &&& other != s.keys[s.index] ==> lookup(t.entries, other) == lookup(
                    s.entries,
                    other,
                )
                &&& keys_of(t.entries) == keys_of(s.entries)
                &&& t.index == s.index + 1
                &&& t.changed == s.changed + 1
                &&& t.keys == s.keys
                &&& t.references == s.references
                &&& round == Round::Next
            }
        }),
{
    reveal_strlit(":n");
    reveal_strlit(":p");
    reveal_strlit(":q");
    reveal_strlit("=");
    assert("="@.len() == 1 && ":n"@.len() == 2 && ":p"@.len() == 2 && ":q"@.len() == 2);
    law_insert(s.entries, s.keys[s.index], reference_in(s.references, s.keys[s.index]));
    assert(s.entries[s.index].0 == s.keys[s.index]);
}

/// A session ends only where it is told to: every input but `:q` goes on, and each moves by at most
/// one entry.
pub proof fn law_session_goes_on(s: SessionView, input: Seq<char>)
    requires
        session_ok(s),
        s.index < s.keys.len(),
    ensures
        s.after(input).1 == Round::Quit <==> input == ":q"@,
        s.index - 1 <= s.after(input).0.index <= s.index + 1,
        s.changed <= s.after(input).0.changed <= s.changed + 1,
{
    law_session_moves(s);
    reveal_strlit(":q");
    assert(":q"@.len() == 2);
}

/// A session that is typed through from its first entry gives every entry the text that was typed
/// for it.
pub proof fn law_session_types_all(s: SessionView, inputs: Seq<Seq<char>>, i: int)
    requires
        session_ok(s),
        inputs.len() <= s.keys.len() - s.index,
        forall|k: int|
            0 <= k < inputs.len() ==> (#[trigger] inputs[k]).len() > 0 && inputs[k] != ":q"@
                && inputs[k] != ":n"@ && inputs[k] != ":p"@ && inputs[k] != "="@,
        0 <= i < inputs.len(),
    ensures
        lookup(session_after(s, inputs).entries, s.keys[s.index + i]) == Some(inputs[i]),
    decreases inputs.len(),
{
    let next = s.after(inputs.first()).0;
    let rest = inputs.drop_first();
    assert(inputs[0] == inputs.first());
    crate::laws::law_session_keeps_keys(s, inputs.first());
    law_insert(s.entries, s.keys[s.index], inputs.first());
    assert forall|k: int| 0 <= k < rest.len() implies (#[trigger] rest[k]).len() > 0 && rest[k]
        != ":q"@ && rest[k] != ":n"@ && rest[k] != ":p"@ && rest[k] != "="@ by {
        assert(rest[k] == inputs[k + 1]);
    }
    if i > 0 {
        law_session_types_all(next, rest, i - 1);
        assert(rest[i - 1] == inputs[i]);
    } else {
        lemma_untouched(next, rest, s.keys[s.index]);
    }
}

/// Entries before the one that is shown stay as they are while texts are typed.
proof fn lemma_untouched(s: SessionView, inputs: Seq<Seq<char>>, key: Seq<char>)
    requires
        session_ok(s),
        inputs.len() <= s.keys.len() - s.index,
        forall|k: int|
            0 <= k < inputs.len() ==> (#[trigger] inputs[k]).len() > 0 && inputs[k] != ":q"@
                && inputs[k] != ":n"@ && inputs[k] != ":p"@ && inputs[k] != "="@,
        s.index > 0,
        exists|k: int| 0 <= k < s.index && #[trigger] s.keys[k] == key,
    ensures
        lookup(session_after(s, inputs).entries, key) == lookup(s.entries, key),
    decreases inputs.len(),
{
    if inputs.len() > 0 {
        let next = s.after(inputs.first()).0;
        let rest = inputs.drop_first();
        assert(inputs[0] == inputs.first());
        crate::laws::law_session_keeps_keys(s, inputs.first());
        law_insert(s.entries, s.keys[s.index], inputs.first());
        assert forall|k: int| 0 <= k < rest.len() implies (#[trigger] rest[k]).len() > 0 && rest[k]
            != ":q"@ && rest[k] != ":n"@ && rest[k] != ":p"@ && rest[k] != "="@ by {
            assert(rest[k] == inputs[k + 1]);
        }
        let k = choose|k: int| 0 <= k < s.index && #[trigger] s.keys[k] == key;
        assert(s.entries[k].0 == key);
        assert(s.entries[s.index].0 == s.keys[s.index]);
        assert(s.entries[k].0 != s.entries[s.index].0);
        assert(next.keys[k] == key);
        lemma_untouched(next, rest, key);
    }
}

/// A new session stands at the first entry of its table, walks over the keys of the table in their
/// order, and has changed nothing; sending it to the first entry that needs a text only moves it.
pub proof fn law_session_start(
    e: Seq<(Seq<char>, Seq<char>)>,
    references: Seq<(Seq<char>, Seq<char>)>,
    i: int,
)
    requires
        distinct(e),
    ensures
        ({
            let s = SessionView::started(e, references);
            &&& session_ok(s) && session_ok(s.sought())
            &&& s.entries == e && s.references == references && s.index == 0 && s.changed == 0
            &&& s.keys.len() == e.len()
            &&& 0 <= i < e.len() ==> s.keys[i] == e[i].0
            &&& only_moved(s, s.sought())
            &&& 0 <= i < s.sought().index ==> !untranslated(e, e[i].0)
            &&& (exists|k: int| 0 <= k < e.len() && untranslated(e, (#[trigger] e[k]).0))
                ==> s.sought().index < e.len() && untranslated(e, e[s.sought().index].0)
        }),
{
    let s = SessionView::started(e, references);
    crate::laws::law_first_untranslated(e, s.keys);
    if exists|k: int| 0 <= k < e.len() && untranslated(e, (#[trigger] e[k]).0) {
        let k = choose|k: int| 0 <= k < e.len() && untranslated(e, (#[trigger] e[k]).0);
        assert(s.keys[k] == e[k].0);
    }
    if 0 <= i < e.len() {
        assert(s.keys[i] == e[i].0);
    }
}

/// What is shown is the current entry: its place, its key, its text, and its reference in one line
/// where there is one. Nothing is shown exactly after the last entry.
pub proof fn law_prompt(s: SessionView)
    requires
        session_ok(s),
    ensures
        s.prompt() is None <==> s.index == s.entries.len(),
        s.prompt() matches Some(p) ==> p.number == s.index + 1 && p.total == s.entries.len()
            && p.key == s.entries[s.index].0 && p.current == s.entries[s.index].1 && (p.reference
            is None <==> reference_in(s.references, p.key).len() == 0) && (p.reference matches Some(
            line,
        ) ==> line == crate::edit::in_one_line(reference_in(s.references, p.key))),
{
    if s.index < s.keys.len() {
        assert(s.keys[s.index] == s.entries[s.index].0);
        law_lookup(s.entries, s.index, s.keys[s.index]);
    }
}

/// A table that holds something is not seeded; an empty one gets the keys of the references, each
/// once and without a text.
pub proof fn law_seeded(
    e: Seq<(Seq<char>, Seq<char>)>,
    references: Seq<(Seq<char>, Seq<char>)>,
    i: int,
)
    ensures
        e.len() > 0 ==> seeded(e, references) == e,
        e.len() == 0 ==> keys_of(seeded(e, references)) == without_repeats(keys_of(references)),
        e.len() == 0 && 0 <= i < seeded(e, references).len() ==> seeded(e, references)[i].1.len()
            == 0,
{
    if e.len() == 0 {
        law_filled(emptied(references), 0);
        assert(keys_of(emptied(references)) =~= keys_of(references));
        crate::laws::law_seed_is_fetch(references);
        crate::laws::law_fetch_keeps_entries(Seq::empty(), keys_of(references));
    }
}

/// Of each mod both files are kept in step, that of the translations first, at its path in the
/// repository and under a message that names the mod.
pub proof fn law_sync_files(mods: Seq<Seq<char>>, i: int)
    ensures
        sync_list(mods).len() == 2 * mods.len(),
        0 <= i < mods.len() ==> ({
            let first = sync_list(mods)[2 * i];
            let second = sync_list(mods)[2 * i + 1];
            &&& first.mod_id == mods[i] && second.mod_id == mods[i]
            &&& first.kind == Kind::Chinese && second.kind == Kind::BaseEnglish
            &&& first.path == remote_path_of(mods[i], Kind::Chinese)
            &&& second.path == remote_path_of(mods[i], Kind::BaseEnglish)
            &&& first.message == commit_message_of(mods[i], Kind::Chinese)
            &&& second.message == commit_message_of(mods[i], Kind::BaseEnglish)
        }),
{
}

/// Lists of texts, of pairs and of entries are taken item by item.
pub proof fn law_views(
    texts: Seq<String>,
    pairs: Seq<(String, String)>,
    e: Seq<(Seq<char>, Seq<char>)>,
    i: int,
)
    ensures
        views(texts).len() == texts.len(),
        0 <= i < texts.len() ==> views(texts)[i] == texts[i]@,
        pair_views(pairs).len() == pairs.len(),
        0 <= i < pairs.len() ==> pair_views(pairs)[i] == (pairs[i].0@, pairs[i].1@),
        keys_of(e).len() == e.len(),
        0 <= i < e.len() ==> keys_of(e)[i] == e[i].0,
{
}

/// The keys of a sheet are those of its rows, one for each and in their order.
pub proof fn law_row_keys(rows: Seq<RowView>, i: int)
    ensures
        row_keys(rows).len() == rows.len(),
        0 <= i < rows.len() ==> row_keys(rows)[i] == rows[i].key,
{
}

/// A fetch of a sheet leaves every text of the table as it was and gives every row of the sheet an
/// entry, without a text where the table had none.
pub proof fn law_fetch_of_sheet(
    e: Seq<(Seq<char>, Seq<char>)>,
    rows: Seq<RowView>,
    i: int,
    key: Seq<char>,
)
    requires
        distinct(e),
    ensures
        lookup(e, key) is Some ==> lookup(extended(e, row_keys(rows)), key) == lookup(e, key),
        0 <= i < rows.len() && lookup(e, rows[i].key) is None ==> (lookup(
            extended(e, row_keys(rows)),
            rows[i].key,
        ) matches Some(text) && text.len() == 0),
        lookup(extended(e, row_keys(rows)), key) is Some ==> lookup(e, key) is Some || exists|k: int|
            0 <= k < rows.len() && (#[trigger] rows[k]).key == key,
{
    let keys = row_keys(rows);
    let f = extended(e, keys);
    crate::laws::law_fetch_keeps_entries(e, keys);
    crate::laws::law_fetch_covers_sheet(e, keys);
    assert forall|k: int| 0 <= k < e.len() implies #[trigger] e[k] == f[k] by {
        assert(f.take(e.len() as int)[k] == f[k]);
    }
    if has_key(e, key) {
        lemma_position(e, key);
        let p = position(e, key);
        assert(f[p].0 == key);
        law_lookup(f, p, key);
    }
    if has_key(f, key) {
        lemma_position(f, key);
        let p = position(f, key);
        if p < e.len() {
            assert(e[p].0 == key);
        } else {
            let k = choose|k: int| 0 <= k < keys.len() && keys[k] == f[p].0;
            assert(rows[k].key == key);
        }
    }
    if 0 <= i < rows.len() && lookup(e, rows[i].key) is None {
        assert(keys[i] == rows[i].key);
        assert(has_key(f, keys[i]));
        lemma_position(f, rows[i].key);
        let p = position(f, rows[i].key);
        if p < e.len() {
            assert(e[p].0 == rows[i].key);
        }
    }
}

/// Of the keys that are gone the first five are named, with commas between them, or all where there
/// are fewer.
pub proof fn law_first_names(names: Seq<Seq<char>>)
    ensures
        names.len() <= 5 ==> first_names(names) == joined(names, ", "@),
        names.len() > 5 ==> first_names(names) == joined(names.take(5), ", "@),
{
}

} // verus!
